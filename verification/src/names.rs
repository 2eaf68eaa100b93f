//! The names of files: what stands before the last dot, and what stands behind it.
//!
//! A name may be a path, whose parts are divided by slashes.
use crate::text::{ends_with, has_suffix, joined, letters_of, text_between, trim, trimmed};
use vstd::prelude::*;

verus! {

/// The place after the last slash.
pub open spec fn after_slash(text: Seq<char>) -> int
    decreases text.len(),
{
    if text.len() == 0 || text.last() == '/' {
        text.len() as int
    } else {
        after_slash(text.drop_last())
    }
}

/// The last part of a path, if it names something: parts that stand for the directory
/// itself are passed over, and one that leads up names nothing.
pub open spec fn last_part(path: Seq<char>) -> Option<Seq<char>>
    decreases path.len(),
{
    if path.len() == 0 {
        None
    } else if path.last() == '/' {
        last_part(path.drop_last())
    } else {
        let start = after_slash(path);
        let part = path.subrange(start, path.len() as int);
        if part == seq!['.'] {
            if 0 < start <= path.len() {
                last_part(path.take(start - 1))
            } else {
                None
            }
        } else if part == seq!['.', '.'] {
            None
        } else {
            Some(part)
        }
    }
}

/// The place of the last dot of a name, or -1.
pub open spec fn last_dot(name: Seq<char>) -> int
    decreases name.len(),
{
    if name.len() == 0 {
        -1
    } else if name.last() == '.' {
        name.len() - 1
    } else {
        last_dot(name.drop_last())
    }
}

/// A name without its ending. A dot in front is no ending's.
pub open spec fn stem(name: Seq<char>) -> Seq<char> {
    if last_dot(name) > 0 {
        name.take(last_dot(name))
    } else {
        name
    }
}

/// The ending of a name, without its dot.
pub open spec fn ending(name: Seq<char>) -> Seq<char> {
    if last_dot(name) > 0 {
        name.skip(last_dot(name) + 1)
    } else {
        Seq::empty()
    }
}

/// What of a name can be changed, and what is kept.
pub struct NameParts {
    pub stem: String,
    pub extension: String,
}

proof fn lemma_after_slash(text: Seq<char>)
    ensures
        0 <= after_slash(text) <= text.len(),
        text.len() > 0 && text.last() != '/' ==> after_slash(text) < text.len(),
    decreases text.len(),
{
    if text.len() > 0 && text.last() != '/' {
        lemma_after_slash(text.drop_last());
    }
}

proof fn lemma_last_dot(name: Seq<char>)
    ensures
        -1 <= last_dot(name) < name.len(),
    decreases name.len(),
{
    if name.len() > 0 && name.last() != '.' {
        lemma_last_dot(name.drop_last());
    }
}

/// The last part of the path `letters[..end]`, as a range.
fn find_last_part(letters: &Vec<char>, end: usize) -> (part: Option<(usize, usize)>)
    requires
        end <= letters.len(),
    ensures
        match part {
            Some((from, to)) => from < to <= end && last_part(letters@.take(end as int)) == Some(
                letters@.subrange(from as int, to as int),
            ),
            None => last_part(letters@.take(end as int)) is None,
        },
    decreases end,
{
    let ghost path = letters@.take(end as int);
    if end == 0 {
        return None;
    }
    if letters[end - 1] == '/' {
        assert(path.drop_last() =~= letters@.take(end - 1));
        return find_last_part(letters, end - 1);
    }
    let mut start: usize = end;
    while start > 0 && letters[start - 1] != '/'
        invariant
            start <= end <= letters.len(),
            after_slash(letters@.take(end as int)) == after_slash(letters@.take(start as int)),
        decreases start,
    {
        assert(letters@.take(start as int).drop_last() =~= letters@.take(start - 1));
        start -= 1;
    }
    proof {
        lemma_after_slash(path);
        assert(after_slash(path) == start);
        assert(path.subrange(start as int, end as int) =~= letters@.subrange(
            start as int,
            end as int,
        ));
    }
    let ghost part = letters@.subrange(start as int, end as int);
    if end - start == 1 && letters[start] == '.' {
        assert(part =~= seq!['.']);
        if start == 0 {
            return None;
        }
        assert(path.take(start - 1) =~= letters@.take(start - 1));
        return find_last_part(letters, start - 1);
    }
    if end - start == 2 && letters[start] == '.' && letters[start + 1] == '.' {
        assert(part =~= seq!['.', '.']);
        return None;
    }
    proof {
        if part == seq!['.'] {
            assert(part.len() == 1 && part[0] == '.');
            assert(false);
        }
        if part == seq!['.', '.'] {
            assert(part.len() == 2 && part[0] == '.' && part[1] == '.');
            assert(false);
        }
    }
    Some((start, end))
}

/// Divides a name at its last dot. A name that names nothing is kept whole.
pub fn split_name(name: &str) -> (parts: NameParts)
    ensures
        match last_part(name@) {
            Some(part) => parts.stem@ == stem(part) && parts.extension@ == ending(part),
            None => parts.stem@ == name@ && parts.extension@.len() == 0,
        },
{
    let letters = letters_of(name);
    assert(letters@.take(letters@.len() as int) =~= letters@);
    match find_last_part(&letters, letters.len()) {
        None => NameParts { stem: String::from_str(name), extension: String::new() },
        Some((from, to)) => {
            let ghost part = letters@.subrange(from as int, to as int);
            let mut place: usize = to;
            assert(part.take(part.len() as int) =~= part);
            while place > from && letters[place - 1] != '.'
                invariant
                    from <= place <= to <= letters.len(),
                    part == letters@.subrange(from as int, to as int),
                    last_dot(part) == last_dot(part.take(place - from)),
                decreases place,
            {
                assert(part.take(place - from).drop_last() =~= part.take(place - from - 1));
                assert(part.take(place - from).last() == letters@[place - 1]);
                place -= 1;
            }
            proof {
                lemma_last_dot(part);
                if place > from {
                    assert(part.take(place - from).last() == '.');
                }
            }
            if place > from && place - 1 > from {
                let parts = NameParts {
                    stem: text_between(&letters, from, place - 1),
                    extension: text_between(&letters, place, to),
                };
                assert(parts.stem@ =~= stem(part));
                assert(parts.extension@ =~= ending(part));
                parts
            } else {
                let parts = NameParts {
                    stem: text_between(&letters, from, to),
                    extension: String::new(),
                };
                assert(parts.extension@ =~= ending(part));
                parts
            }
        },
    }
}

/// The name that a typed text gives, with an ending that is kept: the ending is added
/// unless it was typed too.
pub open spec fn renamed(typed: Seq<char>, extension: Seq<char>) -> Seq<char> {
    let value = trimmed(typed);
    let suffix = "."@ + extension;
    if extension.len() == 0 {
        value
    } else if has_suffix(value, suffix) {
        value
    } else {
        value + suffix
    }
}

/// The name that a typed text gives, with an ending that is kept.
pub fn new_name(typed: &str, extension: &str) -> (name: String)
    ensures
        name@ == renamed(typed@, extension@),
{
    let value = trim(typed);
    if extension.unicode_len() == 0 {
        return value;
    }
    let suffix = joined(".", extension);
    if ends_with(value.as_str(), suffix.as_str()) {
        value
    } else {
        joined(value.as_str(), suffix.as_str())
    }
}

/// Typing the shown text again, or the whole name, gives the name back.
pub proof fn renaming_to_itself_changes_nothing(name: Seq<char>)
    requires
        last_part(name) == Some(name),
        trimmed(stem(name)) == stem(name),
        trimmed(name) == name,
        ending(name).len() > 0,
        !has_suffix(stem(name), "."@ + ending(name)),
    ensures
        renamed(stem(name), ending(name)) == name,
        renamed(name, ending(name)) == name,
{
    reveal_strlit(".");
    lemma_last_dot(name);
    let dot = last_dot(name);
    lemma_dot_stands(name);
    assert(stem(name) + ("."@ + ending(name)) =~= name);
    assert(name.subrange(
        name.len() - ("."@ + ending(name)).len(),
        name.len() as int,
    ) =~= "."@ + ending(name));
}

proof fn lemma_dot_stands(name: Seq<char>)
    requires
        last_dot(name) >= 0,
    ensures
        last_dot(name) < name.len(),
        name[last_dot(name)] == '.',
    decreases name.len(),
{
    if name.last() != '.' {
        lemma_dot_stands(name.drop_last());
    }
}

/// A name is taken apart at its last dot: what stood before it and what stood behind it, if
/// there was anything before.
pub proof fn names_come_apart_at_the_last_dot(front: Seq<char>, back: Seq<char>)
    requires
        front.len() > 0,
        !back.contains('.'),
    ensures
        stem(front + seq!['.'] + back) == front,
        ending(front + seq!['.'] + back) == back,
        stem(back) == back,
        ending(back).len() == 0,
        stem(seq!['.'] + back) == seq!['.'] + back,
        ending(seq!['.'] + back).len() == 0,
{
    lemma_dot_before(front, back);
    lemma_dot_before(Seq::empty(), back);
    lemma_no_dot(back);
    let name = front + seq!['.'] + back;
    assert(name.take(front.len() as int) =~= front);
    assert(name.skip((front.len() + 1) as int) =~= back);
    assert(Seq::<char>::empty() + seq!['.'] + back =~= seq!['.'] + back);
}

proof fn lemma_dot_before(front: Seq<char>, back: Seq<char>)
    requires
        !back.contains('.'),
    ensures
        last_dot(front + seq!['.'] + back) == front.len(),
    decreases back.len(),
{
    let name = front + seq!['.'] + back;
    if back.len() == 0 {
        assert(name.last() == '.');
    } else {
        let less = back.drop_last();
        assert(back.last() != '.') by {
            assert(back[back.len() - 1] == back.last());
        }
        assert(!less.contains('.')) by {
            assert forall|i: int| 0 <= i < less.len() implies less[i] != '.' by {
                assert(back[i] == less[i]);
            }
        }
        lemma_dot_before(front, less);
        assert(name.drop_last() =~= front + seq!['.'] + less);
        assert(name.last() == back.last());
    }
}

proof fn lemma_no_dot(name: Seq<char>)
    requires
        !name.contains('.'),
    ensures
        last_dot(name) == -1,
    decreases name.len(),
{
    if name.len() > 0 {
        let less = name.drop_last();
        assert(name.last() != '.') by {
            assert(name[name.len() - 1] == name.last());
        }
        assert(!less.contains('.')) by {
            assert forall|i: int| 0 <= i < less.len() implies less[i] != '.' by {
                assert(name[i] == less[i]);
            }
        }
        lemma_no_dot(less);
    }
}

/// The last part of a path is what stands behind its last slash; slashes at the end count for
/// nothing.
pub proof fn the_last_part_stands_behind_the_last_slash(folder: Seq<char>, name: Seq<char>)
    requires
        name.len() > 0,
        !name.contains('/'),
        name != seq!['.'],
        name != seq!['.', '.'],
    ensures
        last_part(folder + seq!['/'] + name) == Some(name),
        last_part(name) == Some(name),
        last_part(name.push('/')) == Some(name),
{
    lemma_slash_before(folder, name);
    lemma_no_slash(name);
    let path = folder + seq!['/'] + name;
    assert(path.last() == name.last());
    assert(name.last() != '/') by {
        assert(name[name.len() - 1] == name.last());
    }
    assert(path.subrange((folder.len() + 1) as int, path.len() as int) =~= name);
    assert(name.subrange(0, name.len() as int) =~= name);
    assert(name.push('/').drop_last() =~= name);
    assert(last_part(name) == Some(name));
    assert(last_part(name.push('/')) == last_part(name));
}

proof fn lemma_slash_before(folder: Seq<char>, name: Seq<char>)
    requires
        !name.contains('/'),
    ensures
        after_slash(folder + seq!['/'] + name) == folder.len() + 1,
    decreases name.len(),
{
    let path = folder + seq!['/'] + name;
    if name.len() == 0 {
        assert(path.last() == '/');
    } else {
        let less = name.drop_last();
        assert(name.last() != '/') by {
            assert(name[name.len() - 1] == name.last());
        }
        assert(!less.contains('/')) by {
            assert forall|i: int| 0 <= i < less.len() implies less[i] != '/' by {
                assert(name[i] == less[i]);
            }
        }
        lemma_slash_before(folder, less);
        assert(path.drop_last() =~= folder + seq!['/'] + less);
        assert(path.last() == name.last());
    }
}

proof fn lemma_no_slash(name: Seq<char>)
    requires
        !name.contains('/'),
    ensures
        after_slash(name) == 0,
    decreases name.len(),
{
    if name.len() > 0 {
        let less = name.drop_last();
        assert(name.last() != '/') by {
            assert(name[name.len() - 1] == name.last());
        }
        assert(!less.contains('/')) by {
            assert forall|i: int| 0 <= i < less.len() implies less[i] != '/' by {
                assert(name[i] == less[i]);
            }
        }
        lemma_no_slash(less);
    }
}

/// A new name keeps the extension: it is what was typed, without the whitespace around it, with
/// the extension put behind where it is not there already.
pub proof fn new_names_keep_the_extension(typed: Seq<char>, extension: Seq<char>)
    requires
        extension.len() > 0,
    ensures
        ({
            let name = renamed(typed, extension);
            let value = trimmed(typed);
            &&& name.len() > extension.len()
            &&& name.skip(name.len() - extension.len()) == extension
            &&& name[name.len() - extension.len() - 1] == '.'
            &&& name == value || name == value + seq!['.'] + extension
            &&& name == value <==> exists|front: Seq<char>| value == #[trigger] (front + (seq!['.']
                + extension))
        }),
        renamed(typed, Seq::empty()) == trimmed(typed),
{
    reveal_strlit(".");
    let name = renamed(typed, extension);
    let value = trimmed(typed);
    let suffix = "."@ + extension;
    assert(suffix =~= seq!['.'] + extension);
    if has_suffix(value, suffix) {
        let from = value.len() - suffix.len();
        let tail = value.subrange(from, value.len() as int);
        assert(tail[0] == suffix[0]);
        assert(value.skip(from + 1) =~= tail.skip(1));
        assert(suffix.skip(1) =~= extension);
        assert(value =~= value.take(from) + (seq!['.'] + extension)) by {
            assert(value =~= value.take(from) + tail);
        }
    } else {
        assert(name.skip(name.len() - extension.len()) =~= extension);
        assert(name =~= value + seq!['.'] + extension);
        assert forall|front: Seq<char>| value != #[trigger] (front + (seq!['.'] + extension)) by {
            if value == front + (seq!['.'] + extension) {
                crate::text::parts_occur_where_they_are_put(front, suffix, Seq::empty());
                assert(has_suffix(value, suffix));
            }
        }
    }
}

/// A name without a slash is its own last part, unless it stands for this folder or the one
/// above.
pub proof fn plain_names_are_their_own_last_part(name: Seq<char>)
    requires
        name.len() > 0,
        !name.contains('/'),
    ensures
        name != seq!['.'] && name != seq!['.', '.'] ==> last_part(name) == Some(name),
        name == seq!['.'] || name == seq!['.', '.'] ==> last_part(name) is None,
{
    lemma_no_slash(name);
    assert(name.last() != '/') by {
        assert(name[name.len() - 1] == name.last());
    }
    assert(name.subrange(0, name.len() as int) =~= name);
}

} // verus!
