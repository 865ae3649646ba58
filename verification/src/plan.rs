//! What a backup holds and where it goes: the packages that a base backup
//! lacks, and the name of the folder.

use crate::text::{listed, replace, replaced, trim, trimmed};
use vstd::prelude::*;

verus! {

/// The packages of `device` that `base` lacks, in the order of `device`.
pub open spec fn missing_from(device: Seq<Seq<char>>, base: Seq<Seq<char>>) -> Seq<Seq<char>> {
    device.filter(|package: Seq<char>| !base.contains(package))
}

/// The packages of `device` that `base` lacks, in the order of `device`.
pub fn packages_to_backup(device: &Vec<String>, base: &Vec<String>) -> (r: Vec<String>)
    ensures
        r.deep_view() == missing_from(device.deep_view(), base.deep_view()),
{
    let mut out: Vec<String> = Vec::new();
    let ghost all = device.deep_view();
    let ghost lacks = |package: Seq<char>| !base.deep_view().contains(package);
    let mut i: usize = 0;
    proof {
        reveal(Seq::filter);
        assert(out.deep_view() =~= Seq::empty());
        assert(all.take(0) =~= Seq::empty());
    }
    while i < device.len()
        invariant
            i <= device.len(),
            all == device.deep_view(),
            lacks == |package: Seq<char>| !base.deep_view().contains(package),
            out.deep_view() == all.take(i as int).filter(lacks),
        decreases device.len() - i,
    {
        let package = device[i].as_str();
        proof {
            reveal(Seq::filter);
            assert(all.take(i + 1).drop_last() == all.take(i as int));
            assert(all.take(i + 1).last() == package@);
        }
        if !listed(base, package) {
            let ghost before = out.deep_view();
            out.push(device[i].clone());
            assert(out.deep_view() =~= before.push(package@));
        }
        i += 1;
    }
    assert(all.take(device.len() as int) == all);
    out
}

/// A package is among those that `base` lacks if and only if it is among
/// those of `device` and not among those of `base`: as sets, what is
/// missing is the difference of the two.
pub proof fn lemma_missing_is_difference(device: Seq<Seq<char>>, base: Seq<Seq<char>>)
    ensures
        missing_from(device, base).to_set() == device.to_set().difference(base.to_set()),
        forall|package: Seq<char>|
            missing_from(device, base).contains(package) <==> device.contains(package)
                && !base.contains(package),
{
    let lacks = |package: Seq<char>| !base.contains(package);
    let missing = device.filter(lacks);
    assert forall|package: Seq<char>| missing.contains(package) <==> device.contains(package)
        && !base.contains(package) by {
        if missing.contains(package) {
            device.lemma_filter_contains_rev(lacks, package);
            let i = choose|i: int| 0 <= i < missing.len() && missing[i] == package;
            device.lemma_filter_pred(lacks, i);
        }
        if device.contains(package) && !base.contains(package) {
            let i = choose|i: int| 0 <= i < device.len() && device[i] == package;
            device.lemma_filter_contains(lacks, i);
        }
    }
    assert(missing.to_set() =~= device.to_set().difference(base.to_set()));
}

/// The mark that stands for the time in the name of a folder.
pub open spec fn date_mark() -> Seq<char> {
    "$date"@
}

/// The answer `line` names a folder: it is more than white space.
pub open spec fn names_folder(line: Seq<char>) -> bool {
    trimmed(line).len() > 0
}

/// The folder of a backup: the time text `stamp` where the answer `line`
/// names none, else the answer without the white space around it and with
/// the time in place of each mark.
pub open spec fn folder_of(line: Seq<char>, stamp: Seq<char>) -> Seq<char> {
    if names_folder(line) {
        replaced(trimmed(line), date_mark(), stamp)
    } else {
        stamp
    }
}

/// The folder of a new backup, and whether the answer named it.
pub fn folder_name(line: &str, stamp: &str) -> (r: (String, bool))
    ensures
        r.0@ == folder_of(line@, stamp@),
        r.1 == names_folder(line@),
{
    let answer = trim(line);
    if answer.unicode_len() == 0 {
        (stamp.to_string(), false)
    } else {
        (replace(answer, "$date", stamp), true)
    }
}

} // verus!
