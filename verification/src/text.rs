//! Path and list texts: the string operations that the engines share.

use vstd::prelude::*;

verus! {

/// The texts of a sequence of strings, in order.
pub open spec fn texts(items: Seq<String>) -> Seq<Seq<char>> {
    items.map_values(|s: String| s@)
}

/// `dir`, a `/`, and `name`, whatever the two hold: the text that is
/// written for `name` inside `dir` where no directory was listed yet.
pub open spec fn child_path(dir: Seq<char>, name: Seq<char>) -> Seq<char> {
    dir + seq!['/'] + name
}

/// The path of `name` seen from the directory `dir`, spelled as a listing
/// of the directory gives it for one of its entries. A `/` stands between
/// the two unless `dir` is empty or ends in one already. A name that
/// starts with `/` is a path of its own and stands alone.
pub open spec fn entry_path(dir: Seq<char>, name: Seq<char>) -> Seq<char> {
    if name.len() > 0 && name[0] == '/' {
        name
    } else if dir.len() == 0 || dir.last() == '/' {
        dir + name
    } else {
        dir + seq!['/'] + name
    }
}

/// The path reached from `dir` by going down through the entries `names`,
/// one inside the other.
pub open spec fn path_below(dir: Seq<char>, names: Seq<Seq<char>>) -> Seq<char>
    decreases names.len(),
{
    if names.len() == 0 {
        dir
    } else {
        path_below(entry_path(dir, names[0]), names.skip(1))
    }
}

/// Where the last segment of `path` starts: behind its last `/`, or at 0
/// where it has none.
pub open spec fn segment_start(path: Seq<char>) -> int
    decreases path.len(),
{
    if path.len() == 0 {
        0
    } else if path.last() == '/' {
        path.len() as int
    } else {
        segment_start(path.drop_last())
    }
}

/// What follows the last `/` of `path`; the whole of it where it has none.
pub open spec fn last_segment(path: Seq<char>) -> Seq<char> {
    path.subrange(segment_start(path), path.len() as int)
}

/// The pieces of `text` between occurrences of `sep`, read left to right: a
/// separator closes the current piece and opens an empty one, any other
/// character extends the current piece.
pub open spec fn split_on(text: Seq<char>, sep: char) -> Seq<Seq<char>>
    decreases text.len(),
{
    if text.len() == 0 {
        seq![Seq::<char>::empty()]
    } else {
        let before = split_on(text.drop_last(), sep);
        if text.last() == sep {
            before.push(Seq::<char>::empty())
        } else {
            before.drop_last().push(before.last().push(text.last()))
        }
    }
}

/// The pieces of `pieces` put together again with `sep` between them.
pub open spec fn joined(pieces: Seq<Seq<char>>, sep: char) -> Seq<char>
    decreases pieces.len(),
{
    if pieces.len() == 0 {
        Seq::<char>::empty()
    } else if pieces.len() == 1 {
        pieces[0]
    } else {
        joined(pieces.drop_last(), sep) + seq![sep] + pieces.last()
    }
}

/// The items of a comma-separated list: none for the empty text, else the
/// pieces between the commas, empty ones included.
pub open spec fn listed(input: Seq<char>) -> Seq<Seq<char>> {
    if input.len() == 0 {
        Seq::<Seq<char>>::empty()
    } else {
        split_on(input, ',')
    }
}

/// The segment start lies inside the path, no `/` follows it, and a `/`
/// stands right before it unless it is the start of the path.
pub proof fn lemma_segment_start(path: Seq<char>)
    ensures
        0 <= segment_start(path) <= path.len(),
        segment_start(path) > 0 ==> path[segment_start(path) - 1] == '/',
        forall|i: int| segment_start(path) <= i < path.len() ==> path[i] != '/',
    decreases path.len(),
{
    if path.len() > 0 && path.last() != '/' {
        let shorter = path.drop_last();
        lemma_segment_start(shorter);
        assert forall|i: int| segment_start(path) <= i < path.len() implies path[i] != '/' by {
            if i < shorter.len() {
                assert(shorter[i] == path[i]);
            }
        }
    }
}

/// The last segment of a path holds no `/`, and the path is what stands
/// before the segment followed by the segment.
pub proof fn lemma_last_segment(path: Seq<char>)
    ensures
        !last_segment(path).contains('/'),
        path == path.take(segment_start(path)) + last_segment(path),
{
    lemma_segment_start(path);
    assert(path =~= path.take(segment_start(path)) + last_segment(path));
}

/// Inside any directory, the last segment of the path of an entry whose name
/// holds no `/` is that name.
pub proof fn lemma_last_segment_of_child(dir: Seq<char>, name: Seq<char>)
    requires
        !name.contains('/'),
    ensures
        last_segment(child_path(dir, name)) == name,
        segment_start(child_path(dir, name)) == dir.len() + 1,
    decreases name.len(),
{
    let path = child_path(dir, name);
    if name.len() == 0 {
        assert(path.last() == '/');
    } else {
        assert(name.contains(name.last()));
        assert(path.last() == name.last());
        assert(path.drop_last() =~= child_path(dir, name.drop_last()));
        assert(!name.drop_last().contains('/')) by {
            if name.drop_last().contains('/') {
                let i = choose|i: int| 0 <= i < name.len() - 1 && name.drop_last()[i] == '/';
                assert(name[i] == '/');
            }
        }
        lemma_last_segment_of_child(dir, name.drop_last());
    }
    assert(last_segment(path) =~= name);
}

/// The last segment of the path of an entry whose name holds no `/` is
/// that name, whatever the directory and however it ends.
pub proof fn lemma_last_segment_of_entry(dir: Seq<char>, name: Seq<char>)
    requires
        !name.contains('/'),
    ensures
        last_segment(entry_path(dir, name)) == name,
        segment_start(entry_path(dir, name)) == entry_path(dir, name).len() - name.len(),
    decreases name.len(),
{
    if name.len() > 0 {
        assert(name.contains(name[0]));
    }
    if dir.len() > 0 && dir.last() != '/' {
        lemma_last_segment_of_child(dir, name);
    } else {
        let path = dir + name;
        if name.len() == 0 {
            assert(path =~= dir);
        } else {
            assert(name.contains(name.last()));
            assert(path.last() == name.last());
            assert(path.drop_last() =~= dir + name.drop_last());
            assert(!name.drop_last().contains('/')) by {
                if name.drop_last().contains('/') {
                    let i = choose|i: int| 0 <= i < name.len() - 1 && name.drop_last()[i] == '/';
                    assert(name[i] == '/');
                }
            }
            lemma_last_segment_of_entry(dir, name.drop_last());
        }
        assert(last_segment(path) =~= name);
    }
}

/// Splitting yields at least one piece, none of which holds the separator,
/// and joining the pieces with the separator gives the text back.
pub proof fn lemma_split_on(text: Seq<char>, sep: char)
    ensures
        split_on(text, sep).len() >= 1,
        forall|k: int|
            0 <= k < split_on(text, sep).len() ==> !(#[trigger] split_on(text, sep)[k]).contains(
                sep,
            ),
        joined(split_on(text, sep), sep) == text,
    decreases text.len(),
{
    let pieces = split_on(text, sep);
    if text.len() == 0 {
        assert(joined(pieces, sep) =~= text);
    } else {
        let before = split_on(text.drop_last(), sep);
        lemma_split_on(text.drop_last(), sep);
        if text.last() == sep {
            assert(pieces.drop_last() =~= before);
            assert(joined(pieces, sep) =~= text);
        } else {
            let grown = before.last().push(text.last());
            assert(!grown.contains(sep)) by {
                if grown.contains(sep) {
                    let i = choose|i: int| 0 <= i < grown.len() && grown[i] == sep;
                    assert(before.last()[i] == sep);
                }
            }
            assert(pieces.drop_last() =~= before.drop_last());
            if before.len() == 1 {
                assert(joined(pieces, sep) =~= text);
            } else {
                assert(joined(pieces, sep) =~= joined(before, sep).push(text.last()));
                assert(joined(pieces, sep) =~= text);
            }
        }
    }
}

/// The texts of a list with one more item are the texts of the list with
/// the text of that item at the end.
pub proof fn lemma_texts_push(items: Seq<String>, last: String)
    ensures
        texts(items.push(last)) == texts(items).push(last@),
{
    assert(texts(items.push(last)) =~= texts(items).push(last@));
}

/// `std::path::absolute`: the path made absolute against the directory that
/// the process runs in, without a look at the file system. Nothing is
/// claimed of the text that comes back. The one promise taken over is that
/// the empty path is refused. A path that is no valid Unicode counts as none.
#[verifier::external_body]
pub(crate) fn absolute_path(path: &str) -> (out: Option<String>)
    ensures
        path@.len() == 0 ==> out is None,
{
    match std::path::absolute(path) {
        Ok(absolute) => match absolute.into_os_string().into_string() {
            Ok(text) => Some(text),
            Err(_) => None,
        },
        Err(_) => None,
    }
}

/// `dir`, a `/`, and `name`.
pub fn join_path(dir: &str, name: &str) -> (out: String)
    ensures
        out@ == child_path(dir@, name@),
{
    let mut out = String::from_str(dir);
    proof {
        reveal_strlit("/");
    }
    out.append("/");
    out.append(name);
    assert("/"@ =~= seq!['/']);
    out
}

/// The path of `name` seen from the directory `dir`: the two with a `/`
/// between them, which is left out where `dir` is empty or ends in one;
/// `name` alone where it starts with `/`.
pub fn join_entry(dir: &str, name: &str) -> (out: String)
    ensures
        out@ == entry_path(dir@, name@),
{
    if name.unicode_len() > 0 && name.get_char(0) == '/' {
        return String::from_str(name);
    }
    let len: usize = dir.unicode_len();
    let mut out = String::from_str(dir);
    if len > 0 && dir.get_char(len - 1) != '/' {
        proof {
            reveal_strlit("/");
        }
        out.append("/");
        assert("/"@ =~= seq!['/']);
    }
    out.append(name);
    out
}

/// The last segment of `path`: what follows its last `/`.
pub fn last_path_segment(path: &str) -> (out: String)
    ensures
        out@ == last_segment(path@),
{
    let len: usize = path.unicode_len();
    let mut start: usize = len;
    assert(path@.take(len as int) =~= path@);
    while start > 0
        invariant
            start <= len,
            len == path@.len(),
            segment_start(path@) == segment_start(path@.take(start as int)),
        ensures
            start <= len,
            segment_start(path@) == start,
        decreases start,
    {
        let ghost head = path@.take(start as int);
        assert(head.last() == path@[start - 1]);
        if path.get_char(start - 1) == '/' {
            break;
        }
        assert(head.drop_last() =~= path@.take(start - 1));
        start = start - 1;
    }
    String::from_str(path.substring_char(start, len))
}

/// Splits a comma-separated list into its items.
pub fn split_list(input: &str) -> (out: Vec<String>)
    ensures
        texts(out@) == listed(input@),
{
    let len: usize = input.unicode_len();
    let mut out: Vec<String> = Vec::new();
    if len == 0 {
        assert(texts(out@) =~= listed(input@));
        return out;
    }
    let mut start: usize = 0;
    let mut at: usize = 0;
    assert(input@.take(0) =~= Seq::<char>::empty());
    assert(split_on(input@.take(0), ',') =~= texts(out@).push(input@.subrange(0, 0)));
    while at < len
        invariant
            start <= at <= len,
            len == input@.len(),
            split_on(input@.take(at as int), ',') == texts(out@).push(
                input@.subrange(start as int, at as int),
            ),
        decreases len - at,
    {
        let ghost before = split_on(input@.take(at as int), ',');
        let ghost done = out@;
        assert(input@.take(at + 1).drop_last() =~= input@.take(at as int));
        if input.get_char(at) == ',' {
            out.push(String::from_str(input.substring_char(start, at)));
            start = at + 1;
            proof {
                lemma_texts_push(done, out@.last());
                assert(input@.subrange(start as int, at + 1) =~= Seq::<char>::empty());
            }
        } else {
            assert(before.drop_last() =~= texts(done));
            assert(input@.subrange(start as int, at + 1) =~= before.last().push(input@[at as int]));
        }
        at = at + 1;
    }
    assert(input@.take(len as int) =~= input@);
    let ghost done = out@;
    out.push(String::from_str(input.substring_char(start, len)));
    proof {
        lemma_texts_push(done, out@.last());
    }
    out
}

/// Whether `item` is one of `list`, compared character by character.
pub fn contains_text(list: &Vec<String>, item: &String) -> (out: bool)
    ensures
        out == texts(list@).contains(item@),
{
    let mut at: usize = 0;
    while at < list.len()
        invariant
            at <= list.len(),
            forall|k: int| 0 <= k < at ==> texts(list@)[k] != item@,
        decreases list.len() - at,
    {
        if list[at] == *item {
            assert(texts(list@)[at as int] == item@);
            return true;
        }
        at = at + 1;
    }
    false
}

/// A copy of `list`.
pub fn clone_texts(list: &Vec<String>) -> (out: Vec<String>)
    ensures
        out@ == list@,
{
    let mut out: Vec<String> = Vec::new();
    let mut at: usize = 0;
    while at < list.len()
        invariant
            at <= list.len(),
            out@ == list@.take(at as int),
        decreases list.len() - at,
    {
        out.push(list[at].clone());
        assert(out@ =~= list@.take(at + 1));
        at = at + 1;
    }
    assert(list@.take(list.len() as int) =~= list@);
    out
}

} // verus!
