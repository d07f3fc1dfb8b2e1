//! The username registry's file format: one username on each line. The file
//! itself is read and appended to elsewhere; here its text is taken apart
//! and the text to append is made.

use vstd::prelude::*;
use vstd::string::{StrSliceExecFns, StringExecFns};
use crate::text::{chars_of, views};

verus! {

/// Whether `start..end` is a line of `contents`, without its line feed: it
/// begins the text or follows a line feed, holds no line feed, and ends at a
/// line feed or, if it is not empty, where the text ends.
pub open spec fn is_line(contents: Seq<char>, start: int, end: int) -> bool {
    &&& 0 <= start <= end <= contents.len()
    &&& start < contents.len()
    &&& (start == 0 || contents[start - 1] == '\n')
    &&& forall|i: int| start <= i < end ==> contents[i] != '\n'
    &&& (end == contents.len() || contents[end] == '\n')
}

/// Where the text of the line `start..end` stops: before the carriage return
/// that precedes its line feed, if there is one.
pub open spec fn text_end(contents: Seq<char>, start: int, end: int) -> int {
    if end < contents.len() && start < end && contents[end - 1] == '\r' {
        end - 1
    } else {
        end
    }
}

/// The text of the line `start..end`.
pub open spec fn line_text(contents: Seq<char>, start: int, end: int) -> Seq<char> {
    contents.subrange(start, text_end(contents, start, end))
}

/// Whether `name` is the text of some line of `contents`: whether the
/// registry with these contents holds the username `name`.
pub open spec fn has_line(contents: Seq<char>, name: Seq<char>) -> bool {
    exists|start: int, end: int| #[trigger]
        is_line(contents, start, end) && line_text(contents, start, end) == name
}

/// Whether a registry file may be appended to without joining two names:
/// it is empty or ends in a line feed.
pub open spec fn ends_lines(contents: Seq<char>) -> bool {
    contents.len() == 0 || contents.last() == '\n'
}

/// Whether a username survives being written as a line and read back: it
/// holds no line feed and does not end in a carriage return.
pub open spec fn fits_a_line(name: Seq<char>) -> bool {
    &&& forall|i: int| 0 <= i < name.len() ==> name[i] != '\n'
    &&& (name.len() == 0 || name.last() != '\r')
}

/// The usernames in a registry file's contents, one for each line, in the
/// file's order. A name is among them exactly if it is a line of the file.
pub fn read_username(contents: &str) -> (names: Vec<String>)
    ensures
        forall|name: Seq<char>| views(names@).contains(name) <==> has_line(contents@, name),
{
    let chars = chars_of(contents);
    let n: usize = chars.len();
    let mut names: Vec<String> = Vec::new();
    let mut start: usize = 0;
    while start < n
        invariant
            n == contents@.len(),
            chars@ == contents@,
            start <= n,
            start < n ==> (start == 0 || contents@[start - 1] == '\n'),
            forall|j: int| 0 <= j < names@.len() ==> has_line(contents@, #[trigger] names@[j]@),
            forall|s: int, e: int| #[trigger]
                is_line(contents@, s, e) && s < start ==> views(names@).contains(
                    line_text(contents@, s, e),
                ),
        decreases n - start,
    {
        let mut end: usize = start;
        while end < n && chars[end] != '\n'
            invariant
                start <= end <= n,
                n == chars@.len(),
                forall|i: int| start <= i < end ==> chars@[i] != '\n',
            decreases n - end,
        {
            end += 1;
        }
        let stop: usize = if end < n && start < end && chars[end - 1] == '\r' {
            end - 1
        } else {
            end
        };
        let name = String::from_str(contents.substring_char(start, stop));
        let ghost before = names@;
        names.push(name);
        let next: usize = if end < n {
            end + 1
        } else {
            n
        };
        proof {
            let text = contents@;
            assert(is_line(text, start as int, end as int));
            assert(name@ == line_text(text, start as int, end as int));
            assert forall|j: int| 0 <= j < names@.len() implies has_line(
                text,
                #[trigger] names@[j]@,
            ) by {
                if j < before.len() {
                    assert(names@[j] == before[j]);
                }
            }
            assert forall|s: int, e: int| #[trigger] is_line(text, s, e) && s < next implies views(
                names@,
            ).contains(line_text(text, s, e)) by {
                if s < start {
                    let found = line_text(text, s, e);
                    assert(views(before).contains(found));
                    let j = choose|j: int| 0 <= j < views(before).len() && views(before)[j] == found;
                    assert(views(names@)[j] == found);
                } else {
                    if s > start {
                        assert(text[s - 1] == '\n');
                    }
                    assert(s == start);
                    if e < end {
                        assert(text[e] == '\n');
                    }
                    if e > end {
                        assert(text[end as int] == '\n');
                    }
                    assert(e == end);
                    assert(views(names@)[names@.len() - 1] == name@);
                }
            }
        }
        start = next;
    }
    proof {
        assert forall|name: Seq<char>| views(names@).contains(name) implies has_line(
            contents@,
            name,
        ) by {
            let j = choose|j: int| 0 <= j < views(names@).len() && views(names@)[j] == name;
            assert(names@[j]@ == name);
        }
    }
    names
}

/// Whether `name` is among `names`, by exact comparison.
pub fn contains(names: &Vec<String>, name: &str) -> (found: bool)
    ensures
        found == views(names@).contains(name@),
{
    let wanted = String::from_str(name);
    let mut i: usize = 0;
    while i < names.len()
        invariant
            i <= names.len(),
            wanted@ == name@,
            forall|j: int| 0 <= j < i ==> views(names@)[j] != name@,
        decreases names.len() - i,
    {
        if names[i] == wanted {
            assert(views(names@)[i as int] == name@);
            return true;
        }
        i += 1;
    }
    false
}

/// The text to append to the registry file for a new username: the name and
/// a line feed.
pub fn write_usernames(username: &str) -> (line: String)
    ensures
        line@ == username@ + "\n"@,
{
    let mut line = String::from_str(username);
    line.append("\n");
    line
}

/// A username that was appended to the registry is found in it afterwards.
pub proof fn lemma_appended_name_is_found(contents: Seq<char>, name: Seq<char>)
    requires
        ends_lines(contents),
        fits_a_line(name),
    ensures
        has_line(contents + (name + "\n"@), name),
        ends_lines(contents + (name + "\n"@)),
{
    reveal_strlit("\n");
    let after = contents + (name + "\n"@);
    let start = contents.len() as int;
    let end = start + name.len();
    assert(after[end] == '\n');
    assert forall|i: int| start <= i < end implies after[i] != '\n' by {
        assert(after[i] == name[i - start]);
    }
    if start < end {
        assert(after[end - 1] == name.last());
    }
    assert(is_line(after, start, end));
    assert(line_text(after, start, end) =~= name);
}

/// Appending a username changes nothing else: any other name is in the
/// registry afterwards exactly if it was there before.
pub proof fn lemma_append_keeps_other_names(
    contents: Seq<char>,
    name: Seq<char>,
    other: Seq<char>,
)
    requires
        ends_lines(contents),
        fits_a_line(name),
        other != name,
    ensures
        has_line(contents + (name + "\n"@), other) == has_line(contents, other),
{
    reveal_strlit("\n");
    let after = contents + (name + "\n"@);
    let len = contents.len() as int;
    if has_line(contents, other) {
        let (s, e) = choose|s: int, e: int| #[trigger]
            is_line(contents, s, e) && line_text(contents, s, e) == other;
        if e == len {
            assert(contents[len - 1] == '\n');
        }
        assert(after[e] == contents[e]);
        assert(is_line(after, s, e));
        assert(line_text(after, s, e) =~= other);
    }
    if has_line(after, other) {
        let (s, e) = choose|s: int, e: int| #[trigger]
            is_line(after, s, e) && line_text(after, s, e) == other;
        if s >= len {
            if s > len {
                assert(after[s - 1] == name[s - 1 - len]);
            }
            assert(s == len);
            if e < len + name.len() {
                assert(after[e] == name[e - len]);
            }
            if e > len + name.len() {
                assert(after[len + name.len()] == '\n');
            }
            assert(e == len + name.len());
            if s < e {
                assert(after[e - 1] == name.last());
            }
            assert(line_text(after, s, e) =~= name);
        } else {
            assert(after[len - 1] == contents[len - 1]);
            assert(e < len);
            assert(after[e] == contents[e]);
            assert forall|i: int| s <= i < e implies contents[i] != '\n' by {
                assert(after[i] == contents[i]);
            }
            if s > 0 {
                assert(after[s - 1] == contents[s - 1]);
            }
            assert(is_line(contents, s, e));
            assert(line_text(contents, s, e) =~= other);
        }
    }
}

} // verus!
