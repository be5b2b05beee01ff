//! The list of recording files that were left behind.
use vstd::prelude::*;
use vstd::string::*;

use crate::text::{characters, same_text};

verus! {

/// A file in the directory of recordings that were not saved yet.
#[derive(Debug)]
pub struct LeftFile {
    pub name: String,
    pub extension: Option<String>,
    pub is_file: bool,
}

impl LeftFile {
    /// Whether the file is a recording.
    pub open spec fn is_recording(self) -> bool {
        self.is_file && (self.extension matches Some(extension) && (extension@ == "csv"@
            || extension@ == "parquet"@))
    }

    /// Whether the file is a recording.
    pub fn recoverable(&self) -> (recoverable: bool)
        ensures
            recoverable == self.is_recording(),
    {
        if !self.is_file {
            return false;
        }
        match &self.extension {
            Some(extension) => {
                let chars = characters(extension.as_str());
                same_text(&chars, "csv") || same_text(&chars, "parquet")
            },
            None => false,
        }
    }
}

/// Whether `a` comes behind `b` in a dictionary.
pub open spec fn comes_behind(a: Seq<char>, b: Seq<char>) -> bool
    decreases a.len(),
{
    if a.len() == 0 {
        false
    } else if b.len() == 0 {
        true
    } else if a[0] != b[0] {
        a[0] > b[0]
    } else {
        comes_behind(a.skip(1), b.skip(1))
    }
}

/// Two different texts come one behind the other, and never each behind the
/// other.
proof fn lemma_behind_total(a: Seq<char>, b: Seq<char>)
    ensures
        comes_behind(a, b) ==> !comes_behind(b, a),
        !comes_behind(a, b) && !comes_behind(b, a) ==> a == b,
    decreases a.len(),
{
    if a.len() > 0 && b.len() > 0 && a[0] == b[0] {
        lemma_behind_total(a.skip(1), b.skip(1));
        if a.skip(1) == b.skip(1) {
            assert(a =~= seq![a[0]] + a.skip(1));
            assert(b =~= seq![b[0]] + b.skip(1));
        }
    } else if a.len() == 0 && b.len() == 0 {
        assert(a =~= b);
    }
}

proof fn lemma_behind_transitive(a: Seq<char>, b: Seq<char>, c: Seq<char>)
    requires
        comes_behind(a, b),
        comes_behind(b, c),
    ensures
        comes_behind(a, c),
    decreases a.len(),
{
    if c.len() > 0 && a[0] == b[0] && b[0] == c[0] {
        lemma_behind_transitive(a.skip(1), b.skip(1), c.skip(1));
    }
}

/// Whether `a` comes behind `b` in a dictionary.
fn is_behind(a: &str, b: &str) -> (behind: bool)
    ensures
        behind == comes_behind(a@, b@),
{
    let a_count: usize = a.unicode_len();
    let b_count: usize = b.unicode_len();
    let mut at: usize = 0;
    assert(a@.skip(0) =~= a@);
    assert(b@.skip(0) =~= b@);
    while at < a_count && at < b_count
        invariant
            a_count == a@.len(),
            b_count == b@.len(),
            at <= a_count,
            at <= b_count,
            comes_behind(a@, b@) == comes_behind(a@.skip(at as int), b@.skip(at as int)),
        decreases a_count - at,
    {
        let left = a.get_char(at);
        let right = b.get_char(at);
        if left != right {
            return left > right;
        }
        assert(a@.skip(at as int).skip(1) =~= a@.skip(at + 1));
        assert(b@.skip(at as int).skip(1) =~= b@.skip(at + 1));
        at += 1;
    }
    at < a_count
}

/// Whether file `a` is listed before file `b`: later in a dictionary, or of
/// the same name and found first.
pub open spec fn is_listed_before(files: Seq<LeftFile>, a: int, b: int) -> bool {
    comes_behind(files[a].name@, files[b].name@) || (files[a].name@ == files[b].name@ && a < b)
}

/// Whether `list` lists the recordings among `files`: all of them, once, the
/// last name first.
pub open spec fn is_listing(files: Seq<LeftFile>, list: Seq<usize>) -> bool {
    &&& forall|i: int|
        0 <= i < list.len() ==> #[trigger] list[i] < files.len()
            && files[list[i] as int].is_recording()
    &&& forall|i: int, j: int|
        0 <= i < j < list.len() ==> is_listed_before(
            files,
            #[trigger] list[i] as int,
            #[trigger] list[j] as int,
        )
    &&& forall|p: usize|
        p < files.len() && files[p as int].is_recording() ==> #[trigger] list.contains(p)
}

proof fn lemma_listed_transitive(files: Seq<LeftFile>, a: int, b: int, c: int)
    requires
        is_listed_before(files, a, b),
        is_listed_before(files, b, c),
    ensures
        is_listed_before(files, a, c),
{
    if comes_behind(files[a].name@, files[b].name@) && comes_behind(files[b].name@, files[c].name@) {
        lemma_behind_transitive(files[a].name@, files[b].name@, files[c].name@);
    }
}

/// The recordings among `files`, the last name first.
pub fn recoverable_recordings(files: &Vec<LeftFile>) -> (list: Vec<usize>)
    ensures
        is_listing(files@, list@),
{
    let mut list: Vec<usize> = Vec::new();
    let mut next: usize = 0;
    while next < files.len()
        invariant
            next <= files@.len(),
            forall|i: int|
                0 <= i < list@.len() ==> #[trigger] list@[i] < next
                    && files@[list@[i] as int].is_recording(),
            forall|i: int, j: int|
                0 <= i < j < list@.len() ==> is_listed_before(
                    files@,
                    #[trigger] list@[i] as int,
                    #[trigger] list@[j] as int,
                ),
            forall|p: usize|
                p < next && files@[p as int].is_recording() ==> #[trigger] list@.contains(p),
        decreases files.len() - next,
    {
        if files[next].recoverable() {
            let mut at: usize = list.len();
            while at > 0 && is_behind(
                files[next].name.as_str(),
                files[list[at - 1]].name.as_str(),
            )
                invariant
                    at <= list@.len(),
                    next < files@.len(),
                    forall|i: int| 0 <= i < list@.len() ==> #[trigger] list@[i] < next,
                    forall|i: int|
                        at <= i < list@.len() ==> comes_behind(
                            files@[next as int].name@,
                            files@[#[trigger] list@[i] as int].name@,
                        ),
                decreases at,
            {
                at -= 1;
            }
            let ghost before = list@;
            proof {
                assert forall|i: int| 0 <= i < at implies is_listed_before(
                    files@,
                    #[trigger] before[i] as int,
                    next as int,
                ) by {
                    let last = before[at - 1] as int;
                    lemma_behind_total(files@[last].name@, files@[next as int].name@);
                    assert(is_listed_before(files@, last, next as int));
                    if i < at - 1 {
                        assert(is_listed_before(files@, before[i] as int, before[at - 1] as int));
                        lemma_listed_transitive(files@, before[i] as int, last, next as int);
                    }
                }
            }
            list.insert(at, next);
            proof {
                assert(list@ =~= before.insert(at as int, next));
                assert forall|i: int, j: int| 0 <= i < j < list@.len() implies is_listed_before(
                    files@,
                    #[trigger] list@[i] as int,
                    #[trigger] list@[j] as int,
                ) by {
                    if i < at && j < at {
                        assert(list@[i] == before[i] && list@[j] == before[j]);
                    } else if i < at && j == at {
                        assert(list@[i] == before[i]);
                    } else if i < at {
                        assert(list@[i] == before[i] && list@[j] == before[j - 1]);
                    } else if i == at {
                        assert(list@[j] == before[j - 1]);
                    } else {
                        assert(list@[i] == before[i - 1] && list@[j] == before[j - 1]);
                    }
                }
                assert forall|p: usize|
                    p < next + 1 && files@[p as int].is_recording() implies #[trigger] list@.contains(
                    p,
                ) by {
                    if p == next {
                        assert(list@[at as int] == p);
                    } else {
                        assert(before.contains(p));
                        let k = choose|k: int| 0 <= k < before.len() && before[k] == p;
                        if k < at {
                            assert(list@[k] == p);
                        } else {
                            assert(list@[k + 1] == p);
                        }
                    }
                }
            }
        }
        next += 1;
    }
    list
}

/// Of two different names exactly one comes behind the other.
pub proof fn law_names_are_in_one_order(a: Seq<char>, b: Seq<char>)
    ensures
        !comes_behind(a, a),
        comes_behind(a, b) ==> !comes_behind(b, a),
        a != b ==> comes_behind(a, b) || comes_behind(b, a),
    decreases a.len(),
{
    if a.len() > 0 {
        law_names_are_in_one_order(a.skip(1), a.skip(1));
        if b.len() > 0 && a[0] == b[0] {
            law_names_are_in_one_order(a.skip(1), b.skip(1));
            if a.skip(1) == b.skip(1) {
                assert(a =~= seq![a[0]] + a.skip(1));
                assert(b =~= seq![b[0]] + b.skip(1));
            }
        }
    }
    if a.len() == 0 && b.len() == 0 {
        assert(a =~= b);
    }
}

/// A longer name comes behind the name that it continues.
pub proof fn law_a_continued_name_comes_behind(name: Seq<char>, more: Seq<char>)
    requires
        more.len() > 0,
    ensures
        comes_behind(name + more, name),
    decreases name.len(),
{
    if name.len() > 0 {
        law_a_continued_name_comes_behind(name.skip(1), more);
        assert((name + more).skip(1) =~= name.skip(1) + more);
        assert((name + more)[0] == name[0]);
    }
}

/// Every recording that was left behind is listed, and nothing else.
pub proof fn law_left_recordings_are_listed(files: Seq<LeftFile>, list: Seq<usize>, at: usize)
    requires
        is_listing(files, list),
        at < files.len(),
    ensures
        list.contains(at) <==> (files[at as int].is_file && (
        files[at as int].extension matches Some(extension) && (extension@ == "csv"@ || extension@
            == "parquet"@))),
{
    if list.contains(at) {
        let i = choose|i: int| 0 <= i < list.len() && list[i] == at;
        assert(list[i] < files.len());
    }
}

} // verus!
