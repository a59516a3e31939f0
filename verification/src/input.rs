//! Command-line inputs: each argument is an `identifier:path` string, split
//! on its first colon into the identifier and the file path.

use vstd::prelude::*;
use vstd::pervasive::VecAdditionalExecFns;
use crate::ReportError;

verus! {

/// The string contains a colon.
pub open spec fn has_colon(s: Seq<char>) -> bool {
    exists|i: int| 0 <= i < s.len() && s[i] == ':'
}

/// `i` is the index of the first colon of `s`.
pub open spec fn is_first_colon(s: Seq<char>, i: int) -> bool {
    &&& 0 <= i < s.len()
    &&& s[i] == ':'
    &&& forall|k: int| 0 <= k < i ==> s[k] != ':'
}

/// The index of the first colon of `s`; meaningful only when `has_colon(s)`.
pub open spec fn first_colon(s: Seq<char>) -> int {
    choose|i: int| is_first_colon(s, i)
}

/// The identifier part of an `identifier:path` string: the characters
/// before the first colon. Meaningful only when `has_colon(s)`.
pub open spec fn split_id(s: Seq<char>) -> Seq<char> {
    s.subrange(0, first_colon(s))
}

/// The path part of an `identifier:path` string: the characters after the
/// first colon. Meaningful only when `has_colon(s)`.
pub open spec fn split_path(s: Seq<char>) -> Seq<char> {
    s.subrange(first_colon(s) + 1, s.len() as int)
}

/// A string with a colon has a first colon, and `first_colon` finds it.
pub proof fn lemma_first_colon_exists(s: Seq<char>)
    requires
        has_colon(s),
    ensures
        is_first_colon(s, first_colon(s)),
    decreases s.len(),
{
    if s[0] == ':' {
        assert(is_first_colon(s, 0));
    } else {
        let t = s.drop_first();
        let w = choose|i: int| 0 <= i < s.len() && s[i] == ':';
        assert(t[w - 1] == s[w]);
        assert(has_colon(t));
        lemma_first_colon_exists(t);
        let j = first_colon(t);
        assert(s[j + 1] == t[j]);
        assert forall|k: int| 0 <= k < j + 1 implies s[k] != ':' by {
            if k > 0 {
                assert(s[k] == t[k - 1]);
            }
        }
        assert(is_first_colon(s, j + 1));
    }
}

/// The path of the last input whose identifier part is `id`, or `None` when
/// no input splits to that identifier.
pub open spec fn last_path_for(inputs: Seq<Seq<char>>, id: Seq<char>) -> Option<Seq<char>>
    decreases inputs.len(),
{
    if inputs.len() == 0 {
        None
    } else if has_colon(inputs.last()) && split_id(inputs.last()) == id {
        Some(split_path(inputs.last()))
    } else {
        last_path_for(inputs.drop_last(), id)
    }
}

/// Splits one `identifier:path` argument on its first colon. Fails with
/// `InputFormatError` exactly when the argument has no colon.
pub fn split_input(input: &String) -> (r: Result<(String, String), ReportError>)
    ensures
        r is Ok <==> has_colon(input@),
        r is Err ==> r == Err::<(String, String), ReportError>(ReportError::InputFormatError),
        r matches Ok(p) ==> {
            &&& is_first_colon(input@, p.0@.len() as int)
            &&& p.0@ == split_id(input@)
            &&& p.1@ == split_path(input@)
        },
{
    let s = input.as_str();
    let n = s.unicode_len();
    let mut i: usize = 0;
    while i < n
        invariant
            s@ == input@,
            n == s@.len(),
            i <= n,
            forall|k: int| 0 <= k < i ==> s@[k] != ':',
        decreases n - i,
    {
        let c = s.get_char(i);
        if c == ':' {
            let id = s.substring_char(0, i);
            let path = s.substring_char(i + 1, n);
            proof {
                assert(is_first_colon(input@, i as int));
                lemma_first_colon_exists(input@);
                assert(first_colon(input@) == i as int);
            }
            return Ok((String::from_str(id), String::from_str(path)));
        }
        i += 1;
    }
    Err(ReportError::InputFormatError)
}

/// Law: splitting on the first colon recovers the identifier and the path.
/// For any identifier without a colon and any path, the joined string
/// `identifier:path` splits back into exactly that identifier and path.
pub proof fn lemma_split_round_trip(id: Seq<char>, path: Seq<char>)
    requires
        forall|k: int| 0 <= k < id.len() ==> id[k] != ':',
    ensures
        has_colon(id + seq![':'] + path),
        split_id(id + seq![':'] + path) == id,
        split_path(id + seq![':'] + path) == path,
{
    let joined = id + seq![':'] + path;
    assert(joined[id.len() as int] == ':');
    assert forall|k: int| 0 <= k < id.len() implies joined[k] != ':' by {
        assert(joined[k] == id[k]);
    }
    assert(is_first_colon(joined, id.len() as int));
    lemma_first_colon_exists(joined);
    assert(first_colon(joined) == id.len() as int);
    assert(split_id(joined) =~= id);
    assert(split_path(joined) =~= path);
}

/// The identifier-to-path mapping built from the command-line inputs: a
/// vector of pairs with pairwise-distinct identifiers. A repeated
/// identifier overwrites the existing entry, as a keyed map would.
#[derive(Debug)]
pub struct FileMap {
    pub entries: Vec<(String, String)>,
}

impl FileMap {
    /// Identifiers are not repeated among the entries.
    pub open spec fn wf(self) -> bool {
        forall|i: int, j: int|
            0 <= i < j < self.entries@.len() ==> (#[trigger] self.entries@[i]).0@ != (
            #[trigger] self.entries@[j]).0@
    }

    /// Some entry carries the identifier `id`.
    pub open spec fn contains_id(self, id: Seq<char>) -> bool {
        exists|i: int| 0 <= i < self.entries@.len() && (#[trigger] self.entries@[i]).0@ == id
    }
}

/// The command-line arguments: one or more `identifier:path` inputs.
#[derive(Debug)]
pub struct Cli {
    pub inputs: Vec<String>,
}

impl Cli {
    /// Builds the identifier-to-path mapping from the arguments. Fails with
    /// `InputFormatError` exactly when some argument has no colon; otherwise
    /// the mapping holds one entry per distinct identifier, carrying the
    /// path of the last argument that named it.
    pub fn get_file_map(&self) -> (r: Result<FileMap, ReportError>)
        ensures
            r is Ok <==> (forall|i: int|
                0 <= i < self.inputs@.len() ==> has_colon(#[trigger] self.inputs@[i]@)),
            r is Err ==> r == Err::<FileMap, ReportError>(ReportError::InputFormatError),
            r matches Ok(m) ==> {
                &&& m.wf()
                &&& forall|j: int|
                    0 <= j < m.entries@.len() ==> last_path_for(
                        self.inputs.deep_view(),
                        (#[trigger] m.entries@[j]).0@,
                    ) == Some(m.entries@[j].1@)
                &&& forall|i: int|
                    0 <= i < self.inputs@.len() ==> m.contains_id(
                        split_id(#[trigger] self.inputs@[i]@),
                    )
            },
    {
        let ghost dv: Seq<Seq<char>> = self.inputs.deep_view();
        proof {
            assert forall|i: int| 0 <= i < self.inputs@.len() implies dv[i]
                == self.inputs@[i]@ by {}
        }
        let n = self.inputs.len();
        let mut map = FileMap { entries: Vec::new() };
        let mut i: usize = 0;
        while i < n
            invariant
                dv == self.inputs.deep_view(),
                n == self.inputs@.len(),
                dv.len() == n,
                forall|ii: int| 0 <= ii < n ==> dv[ii] == #[trigger] self.inputs@[ii]@,
                i <= n,
                map.wf(),
                forall|ii: int| 0 <= ii < i ==> has_colon(#[trigger] dv[ii]),
                forall|j: int|
                    0 <= j < map.entries@.len() ==> last_path_for(
                        dv.take(i as int),
                        (#[trigger] map.entries@[j]).0@,
                    ) == Some(map.entries@[j].1@),
                forall|ii: int| 0 <= ii < i ==> map.contains_id(split_id(#[trigger] dv[ii])),
            decreases n - i,
        {
            let (id, path) = match split_input(&self.inputs[i]) {
                Ok(p) => p,
                Err(_) => {
                    return Err(ReportError::InputFormatError);
                },
            };
            proof {
                assert(dv.take(i + 1).drop_last() =~= dv.take(i as int));
                assert(dv.take(i + 1).last() == dv[i as int]);
            }
            let mut found: bool = false;
            let mut idx: usize = 0;
            let m = map.entries.len();
            while idx < m && !found
                invariant
                    m == map.entries@.len(),
                    idx <= m,
                    forall|j: int| 0 <= j < idx ==> (#[trigger] map.entries@[j]).0@ != id@,
                    found ==> idx < m && map.entries@[idx as int].0@ == id@,
                decreases m - idx + (if found { 0int } else { 1int }),
            {
                if map.entries[idx].0 == id {
                    found = true;
                } else {
                    idx += 1;
                }
            }
            let ghost old_entries = map.entries@;
            if found {
                map.entries.set(idx, (id, path));
            } else {
                map.entries.push((id, path));
            }
            proof {
                let prefix = dv.take(i + 1);
                assert forall|j: int| 0 <= j < map.entries@.len() implies last_path_for(
                    prefix,
                    (#[trigger] map.entries@[j]).0@,
                ) == Some(map.entries@[j].1@) by {
                    if (found && j == idx) || (!found && j == old_entries.len()) {
                        assert(map.entries@[j].0@ == split_id(dv[i as int]));
                        assert(map.entries@[j].1@ == split_path(dv[i as int]));
                    } else {
                        assert(map.entries@[j] == old_entries[j]);
                        assert(map.entries@[j].0@ != split_id(dv[i as int]));
                        assert(last_path_for(prefix, map.entries@[j].0@) == last_path_for(
                            dv.take(i as int),
                            map.entries@[j].0@,
                        ));
                    }
                }
                assert forall|ii: int| 0 <= ii < i + 1 implies map.contains_id(
                    split_id(#[trigger] dv[ii]),
                ) by {
                    if ii < i {
                        let w = choose|w: int|
                            0 <= w < old_entries.len() && (#[trigger] old_entries[w]).0@
                                == split_id(dv[ii]);
                        assert(map.entries@[w].0@ == split_id(dv[ii]));
                    } else {
                        if found {
                            assert(map.entries@[idx as int].0@ == split_id(dv[ii]));
                        } else {
                            assert(map.entries@[old_entries.len() as int].0@ == split_id(dv[ii]));
                        }
                    }
                }
            }
            i += 1;
        }
        proof {
            assert(dv.take(n as int) =~= dv);
        }
        Ok(map)
    }
}

} // verus!
