use edna::text::{
    clone_texts, contains_text, join_entry, join_path, last_path_segment, split_list,
};

fn strings(items: &[&str]) -> Vec<String> {
    items.iter().map(|s| s.to_string()).collect()
}

#[test]
fn join_path_puts_one_slash_between() {
    assert_eq!(join_path("/templates/web", "edna.config.json"), "/templates/web/edna.config.json");
    assert_eq!(join_path("a", "b"), "a/b");
    assert_eq!(join_path("", "name"), "/name");
    assert_eq!(join_path("dir/", "x"), "dir//x");
    assert_eq!(join_path("dir", ""), "dir/");
}

#[test]
fn join_entry_puts_a_slash_between_where_none_stands() {
    assert_eq!(join_entry("/templates/web", "edna.config.json"), "/templates/web/edna.config.json");
    assert_eq!(join_entry("/templates/web/", "edna.config.json"), "/templates/web/edna.config.json");
    assert_eq!(join_entry("a", "b"), "a/b");
    assert_eq!(join_entry("a/", "b"), "a/b");
    assert_eq!(join_entry("/", "b"), "/b");
    assert_eq!(join_entry("", "b"), "b");
    assert_eq!(join_entry("a//", "b"), "a//b");
    assert_eq!(join_entry("a", ""), "a/");
    assert_eq!(join_entry("été", "ü"), "été/ü");
    assert_eq!(join_entry("/a", "/b"), "/b");
    assert_eq!(join_entry("", "/"), "/");
}

#[test]
fn join_entry_agrees_with_the_joining_of_paths() {
    for dir in ["", "/", "a", "a/", "/a", "/a/", "a//", "./", "../x", "é/ü", "é/"] {
        for name in ["b", "b.txt", ".hidden", "日本語", "b/c", "/b", "/", "b/", ""] {
            let joined = std::path::Path::new(dir).join(name);
            assert_eq!(join_entry(dir, name), joined.to_str().unwrap(), "{:?} {:?}", dir, name);
        }
    }
}

#[test]
fn last_path_segment_follows_the_last_slash() {
    assert_eq!(last_path_segment("/templates/web"), "web");
    assert_eq!(last_path_segment("web"), "web");
    assert_eq!(last_path_segment("a/b/c.txt"), "c.txt");
    assert_eq!(last_path_segment("/"), "");
    assert_eq!(last_path_segment("a/b/"), "");
    assert_eq!(last_path_segment(""), "");
}

#[test]
fn last_path_segment_counts_characters_not_bytes() {
    assert_eq!(last_path_segment("/gabarits/été"), "été");
    assert_eq!(last_path_segment("– ü –/日本語"), "日本語");
    assert_eq!(last_path_segment("日本語/"), "");
}

#[test]
fn last_path_segment_agrees_with_split() {
    for path in ["", "/", "a", "a/", "/a", "a//b", "//", "x/y/z", "./templates/web", "é/ü/"] {
        assert_eq!(last_path_segment(path), path.split('/').last().unwrap(), "path {:?}", path);
    }
}

#[test]
fn split_list_of_nothing_is_empty() {
    assert_eq!(split_list(""), Vec::<String>::new());
}

#[test]
fn split_list_cuts_at_every_comma() {
    assert_eq!(split_list("a,b"), strings(&["a", "b"]));
    assert_eq!(split_list("npm install"), strings(&["npm install"]));
    assert_eq!(split_list("a,,b"), strings(&["a", "", "b"]));
    assert_eq!(split_list(","), strings(&["", ""]));
    assert_eq!(split_list("a,"), strings(&["a", ""]));
    assert_eq!(split_list(",a"), strings(&["", "a"]));
    assert_eq!(split_list(" a , b "), strings(&[" a ", " b "]));
    assert_eq!(split_list("é,日本,ü"), strings(&["é", "日本", "ü"]));
}

#[test]
fn split_list_agrees_with_split() {
    for input in ["x", "a,b,c", ",,", "node_modules,target,.git", "a, b", "é,", ",é"] {
        let expected: Vec<String> = input.split(',').map(String::from).collect();
        assert_eq!(split_list(input), expected, "input {:?}", input);
    }
}

#[test]
fn split_list_pieces_join_back() {
    for input in ["x", "a,b,c", ",,", "one,two,,three,"] {
        let pieces = split_list(input);
        assert_eq!(pieces.join(","), input);
        assert!(pieces.iter().all(|p| !p.contains(',')));
    }
}

#[test]
fn contains_text_compares_whole_texts() {
    let list = strings(&["/t/web/node_modules", "/t/web/target"]);
    assert!(contains_text(&list, &"/t/web/target".to_string()));
    assert!(contains_text(&list, &"/t/web/node_modules".to_string()));
    assert!(!contains_text(&list, &"/t/web/node".to_string()));
    assert!(!contains_text(&list, &"/t/web/target/".to_string()));
    assert!(!contains_text(&list, &"".to_string()));
    assert!(!contains_text(&Vec::new(), &"x".to_string()));
}

#[test]
fn clone_texts_copies_every_item_in_order() {
    let list = strings(&["b", "a", "", "b"]);
    assert_eq!(clone_texts(&list), list);
    assert_eq!(clone_texts(&Vec::new()), Vec::<String>::new());
}
