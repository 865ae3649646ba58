//! File names: the last component of a device path, the extension of a
//! name, and numbered names that avoid the names already taken.

use crate::decimal::{
    decimal, decimal_text, is_digit, lemma_decimal_injective, lemma_decimal_round_trip,
};
use crate::text::{chars_of, listed, same, starts_with};
use vstd::prelude::*;

verus! {

/// The index of the last `c` in `s`.
pub open spec fn last_index_of(s: Seq<char>, c: char) -> Option<int>
    decreases s.len(),
{
    if s.len() == 0 {
        None
    } else if s.last() == c {
        Some(s.len() - 1)
    } else {
        last_index_of(s.drop_last(), c)
    }
}

/// Where the last `c` of `s` is, there is none after it, and where there is
/// no last one, there is none at all.
pub proof fn lemma_last_index_of(s: Seq<char>, c: char)
    ensures
        match last_index_of(s, c) {
            Some(i) => 0 <= i < s.len() && s[i] == c && forall|k: int|
                i < k < s.len() ==> s[k] != c,
            None => forall|k: int| 0 <= k < s.len() ==> s[k] != c,
        },
    decreases s.len(),
{
    if s.len() > 0 && s.last() != c {
        let t = s.drop_last();
        lemma_last_index_of(t, c);
        assert(forall|k: int| 0 <= k < t.len() ==> t[k] == s[k]);
    }
}

/// The index of the last `c` in the first `end` characters of `s`.
fn rfind(s: &Vec<char>, c: char, end: usize) -> (r: Option<usize>)
    requires
        end <= s.len(),
    ensures
        match r {
            Some(i) => i < end && last_index_of(s@.take(end as int), c) == Some(i as int),
            None => last_index_of(s@.take(end as int), c) is None,
        },
{
    let mut i: usize = end;
    while i > 0
        invariant
            i <= end <= s.len(),
            last_index_of(s@.take(end as int), c) == last_index_of(s@.take(i as int), c),
        decreases i,
    {
        proof {
            lemma_last_index_of(s@.take(i as int), c);
        }
        if s[i - 1] == c {
            return Some(i - 1);
        }
        assert(s@.take(i as int).drop_last() == s@.take(i - 1));
        i -= 1;
    }
    None
}

/// The part of the path `p` behind its last `/`.
pub open spec fn last_segment(p: Seq<char>) -> Seq<char> {
    match last_index_of(p, '/') {
        Some(i) => p.skip(i + 1),
        None => p,
    }
}

/// The file name of the device path `p`: its last component, where empty
/// components and `.` do not count. A path without components, or one that
/// ends in `..`, has no file name.
pub open spec fn file_name_of(p: Seq<char>) -> Option<Seq<char>>
    decreases p.len(),
{
    if p.len() == 0 {
        None
    } else if p.last() == '/' {
        file_name_of(p.drop_last())
    } else {
        let c = last_segment(p);
        if c == seq!['.'] {
            file_name_of(p.drop_last())
        } else if c == seq!['.', '.'] {
            None
        } else {
            Some(c)
        }
    }
}

/// The file name of the device path `path`.
pub fn file_name(path: &str) -> (r: Option<String>)
    ensures
        r.deep_view() == file_name_of(path@),
{
    let cs = chars_of(path);
    let mut end: usize = cs.len();
    assert(path@.take(end as int) == path@);
    while end > 0
        invariant
            end <= cs.len(),
            cs@ == path@,
            file_name_of(path@) == file_name_of(path@.take(end as int)),
        decreases end,
    {
        let ghost p = path@.take(end as int);
        assert(p.drop_last() == path@.take(end - 1));
        if cs[end - 1] == '/' {
            end -= 1;
        } else {
            let start: usize = match rfind(&cs, '/', end) {
                Some(i) => i + 1,
                None => 0,
            };
            proof {
                lemma_last_index_of(p, '/');
                assert(last_segment(p) == path@.subrange(start as int, end as int));
            }
            let len = end - start;
            if len == 1 && cs[start] == '.' {
                assert(last_segment(p) == seq!['.']);
                end -= 1;
            } else if len == 2 && cs[start] == '.' && cs[start + 1] == '.' {
                assert(last_segment(p) == seq!['.', '.']);
                return None;
            } else {
                assert(last_segment(p) != seq!['.']) by {
                    if last_segment(p) == seq!['.'] {
                        assert(last_segment(p)[0] == '.');
                    }
                }
                assert(last_segment(p) != seq!['.', '.']) by {
                    if last_segment(p) == seq!['.', '.'] {
                        assert(last_segment(p)[0] == '.');
                        assert(last_segment(p)[1] == '.');
                    }
                }
                return Some(path.substring_char(start, end).to_string());
            }
        }
    }
    None
}

/// The index of the dot that begins the extension of the file name `name`:
/// its last dot, unless that is its first character or the name is `..`.
pub open spec fn extension_dot(name: Seq<char>) -> Option<int> {
    match last_index_of(name, '.') {
        Some(i) => if i > 0 && name != seq!['.', '.'] {
            Some(i)
        } else {
            None
        },
        None => None,
    }
}

/// The file name `name` without its extension and the dot before it.
pub open spec fn stem_of(name: Seq<char>) -> Seq<char> {
    match extension_dot(name) {
        Some(i) => name.take(i),
        None => name,
    }
}

/// The extension of the file name `name`: what follows its last dot.
pub open spec fn extension_of(name: Seq<char>) -> Option<Seq<char>> {
    match extension_dot(name) {
        Some(i) => Some(name.skip(i + 1)),
        None => None,
    }
}

/// The file name `name` with `_` and the number `n` behind its stem, before
/// the extension.
pub open spec fn numbered(name: Seq<char>, n: nat) -> Seq<char> {
    stem_of(name) + seq!['_'] + decimal_text(n) + match extension_of(name) {
        Some(e) => seq!['.'] + e,
        None => Seq::empty(),
    }
}

fn extension_start(cs: &Vec<char>) -> (r: Option<usize>)
    ensures
        match r {
            Some(i) => 0 < i < cs.len() && extension_dot(cs@) == Some(i as int),
            None => extension_dot(cs@) is None,
        },
{
    assert(cs@.take(cs.len() as int) == cs@);
    proof {
        lemma_last_index_of(cs@, '.');
    }
    match rfind(cs, '.', cs.len()) {
        Some(i) => {
            if i == 0 {
                None
            } else if cs.len() == 2 && cs[0] == '.' {
                assert(cs@ == seq!['.', '.']);
                None
            } else {
                assert(cs@ != seq!['.', '.']) by {
                    if cs@ == seq!['.', '.'] {
                        assert(cs@.len() == 2 && cs@[0] == '.');
                    }
                }
                Some(i)
            }
        },
        None => None,
    }
}

/// Tells whether the file name `name` has the extension `apk`.
pub fn is_apk(name: &str) -> (r: bool)
    ensures
        r == names_apk(name@),
{
    let cs = chars_of(name);
    match extension_start(&cs) {
        Some(i) => {
            let ghost ext = name@.skip(i + 1);
            if cs.len() - i == 4 && cs[i + 1] == 'a' && cs[i + 2] == 'p' && cs[i + 3] == 'k' {
                assert(ext == seq!['a', 'p', 'k']);
                true
            } else {
                assert(ext != seq!['a', 'p', 'k']) by {
                    if ext == seq!['a', 'p', 'k'] {
                        assert(ext.len() == 3);
                        assert(ext[0] == 'a' && ext[1] == 'p' && ext[2] == 'k');
                    }
                }
                false
            }
        },
        None => false,
    }
}

/// The file name `name` with `_` and the number `n` put in before its
/// extension.
pub fn numbered_name(name: &str, n: usize) -> (r: String)
    ensures
        r@ == numbered(name@, n as nat),
{
    let cs = chars_of(name);
    let len = cs.len();
    let cut = match extension_start(&cs) {
        Some(i) => i,
        None => len,
    };
    proof {
        reveal_strlit("_");
        lemma_last_index_of(name@, '.');
        assert(name@.subrange(0, cut as int) == stem_of(name@));
        assert(name@.subrange(cut as int, len as int) == match extension_of(name@) {
            Some(e) => seq!['.'] + e,
            None => Seq::empty(),
        });
    }
    let mut out = name.substring_char(0, cut).to_string();
    out.append("_");
    assert("_"@ == seq!['_']);
    let digits = decimal(n);
    out.append(digits.as_str());
    out.append(name.substring_char(cut, len));
    out
}

/// A numbered name is never the name it was made from.
pub proof fn lemma_numbered_differs(name: Seq<char>, n: nat)
    ensures
        numbered(name, n) != name,
{
    lemma_decimal_round_trip(n);
    lemma_last_index_of(name, '.');
    assert(numbered(name, n).len() == name.len() + 1 + decimal_text(n).len());
}

/// Two numbers give one name two different numbered names.
pub proof fn lemma_numbered_injective(name: Seq<char>, a: nat, b: nat)
    requires
        numbered(name, a) == numbered(name, b),
    ensures
        a == b,
{
    lemma_last_index_of(name, '.');
    let head = stem_of(name) + seq!['_'];
    let tail = match extension_of(name) {
        Some(e) => seq!['.'] + e,
        None => Seq::empty(),
    };
    let da = decimal_text(a);
    let db = decimal_text(b);
    assert(numbered(name, a) == head + da + tail);
    assert(numbered(name, b) == head + db + tail);
    assert((head + da + tail).len() == head.len() + da.len() + tail.len());
    assert((head + db + tail).len() == head.len() + db.len() + tail.len());
    assert(da.len() == db.len());
    assert forall|j: int| 0 <= j < da.len() implies da[j] == db[j] by {
        assert((head + da + tail)[head.len() + j] == da[j]);
        assert((head + db + tail)[head.len() + j] == db[j]);
    }
    assert(da =~= db);
    lemma_decimal_injective(a, b);
}

/// Where `c` stands at `i` in `s` and nowhere behind `i`, `i` is the last
/// index of `c`; where it stands nowhere, there is no last index.
proof fn lemma_last_index_is(s: Seq<char>, c: char, i: int)
    requires
        0 <= i < s.len() && s[i] == c && (forall|k: int| i < k < s.len() ==> s[k] != c) || i == -1
            && (forall|k: int| 0 <= k < s.len() ==> s[k] != c),
    ensures
        last_index_of(s, c) == if i == -1 {
            None
        } else {
            Some(i)
        },
{
    lemma_last_index_of(s, c);
}

/// Numbering a name other than `..` keeps its extension and lengthens
/// only its stem.
pub proof fn lemma_numbered_keeps_extension(name: Seq<char>, n: nat)
    requires
        name != seq!['.', '.'],
    ensures
        extension_of(numbered(name, n)) == extension_of(name),
        stem_of(numbered(name, n)) == stem_of(name) + seq!['_'] + decimal_text(n),
{
    lemma_decimal_round_trip(n);
    lemma_last_index_of(name, '.');
    let d = decimal_text(n);
    let new = numbered(name, n);
    let stem = stem_of(name);
    assert(forall|k: int| 0 <= k < d.len() ==> is_digit(d[k]) && d[k] != '.');
    assert(new != seq!['.', '.']) by {
        if new.len() == 2 {
            assert(stem.len() == 0);
            assert(new[0] == '_');
        }
    }
    match extension_dot(name) {
        Some(i) => {
            let at = i + 1 + d.len();
            assert(new[at] == '.');
            assert forall|k: int| at < k < new.len() implies new[k] != '.' by {
                assert(new[k] == name[k - 1 - d.len()]);
            }
            lemma_last_index_is(new, '.', at);
            assert(new.skip(at + 1) == name.skip(i + 1));
            assert(new.take(at) == stem + seq!['_'] + d);
        },
        None => {
            assert(new == name + seq!['_'] + d);
            match last_index_of(name, '.') {
                Some(i) => {
                    assert(i == 0);
                    assert(new[0] == '.');
                    assert forall|k: int| 0 < k < new.len() implies new[k] != '.' by {
                        if k < name.len() {
                            assert(new[k] == name[k]);
                        } else if k > name.len() {
                            assert(new[k] == d[k - name.len() - 1]);
                        }
                    }
                    lemma_last_index_is(new, '.', 0);
                },
                None => {
                    assert forall|k: int| 0 <= k < new.len() implies new[k] != '.' by {
                        if k < name.len() {
                            assert(new[k] == name[k]);
                        } else if k > name.len() {
                            assert(new[k] == d[k - name.len() - 1]);
                        }
                    }
                    lemma_last_index_is(new, '.', -1);
                },
            }
        },
    }
}

/// The `k`-th name that is tried for a file called `name`: first the name
/// itself, then the names numbered from `start` upwards.
pub open spec fn candidate(name: Seq<char>, start: nat, k: nat) -> Seq<char> {
    if k == 0 {
        name
    } else {
        numbered(name, (start + k - 1) as nat)
    }
}

/// The `k`-th candidate is not among `taken`, and every earlier one is.
pub open spec fn first_free(name: Seq<char>, start: nat, taken: Seq<Seq<char>>, k: nat) -> bool {
    &&& !taken.contains(candidate(name, start, k))
    &&& forall|j: nat| j < k ==> taken.contains(#[trigger] candidate(name, start, j))
}

/// No two candidates for one name are the same.
pub proof fn lemma_candidates_differ(name: Seq<char>, start: nat, j: nat, k: nat)
    requires
        j != k,
    ensures
        candidate(name, start, j) != candidate(name, start, k),
{
    if j == 0 {
        lemma_numbered_differs(name, (start + k - 1) as nat);
    } else if k == 0 {
        lemma_numbered_differs(name, (start + j - 1) as nat);
    } else if candidate(name, start, j) == candidate(name, start, k) {
        lemma_numbered_injective(name, (start + j - 1) as nat, (start + k - 1) as nat);
    }
}

/// A list that holds the first `k` candidates has at least `k` entries.
proof fn lemma_candidates_counted(name: Seq<char>, start: nat, taken: Seq<Seq<char>>, k: nat)
    requires
        forall|j: nat| j < k ==> taken.contains(#[trigger] candidate(name, start, j)),
    ensures
        taken.len() >= k,
    decreases k,
{
    if k > 0 {
        let last = candidate(name, start, (k - 1) as nat);
        assert(taken.contains(last));
        let at = choose|i: int| 0 <= i < taken.len() && taken[i] == last;
        let rest = taken.remove(at);
        assert forall|j: nat| j < k - 1 implies rest.contains(
            #[trigger] candidate(name, start, j),
        ) by {
            let c = candidate(name, start, j);
            lemma_candidates_differ(name, start, j, (k - 1) as nat);
            assert(taken.contains(c));
            let i = choose|i: int| 0 <= i < taken.len() && taken[i] == c;
            if i < at {
                assert(rest[i] == c);
            } else {
                assert(rest[i - 1] == c);
            }
        }
        lemma_candidates_counted(name, start, rest, (k - 1) as nat);
    }
}

/// The `k`-th candidate can be written: its number, if it has one, fits.
pub open spec fn in_reach(start: nat, k: nat) -> bool {
    k == 0 || start + k - 1 <= usize::MAX
}

/// The first candidate for `name` from the `k`-th on that is not among
/// `taken`, as far as the candidates can be written.
pub open spec fn search(name: Seq<char>, start: nat, taken: Seq<Seq<char>>, k: nat) -> Option<
    Seq<char>,
>
    decreases taken.len() + 1 - k,
{
    if !in_reach(start, k) || k > taken.len() {
        None
    } else if !taken.contains(candidate(name, start, k)) {
        Some(candidate(name, start, k))
    } else {
        search(name, start, taken, k + 1)
    }
}

/// The name under which a file called `name` can be stored beside the
/// files `taken`: the name itself, or else the first free one of the name
/// numbered `start`, `start + 1` and so on.
pub open spec fn available_of(name: Seq<char>, start: nat, taken: Seq<Seq<char>>) -> Option<
    Seq<char>,
> {
    search(name, start, taken, 0)
}

/// `free` is the `k`-th candidate, which can be written and is the first
/// that is not among `taken`.
pub open spec fn picked(
    name: Seq<char>,
    start: nat,
    taken: Seq<Seq<char>>,
    k: nat,
    free: Seq<char>,
) -> bool {
    in_reach(start, k) && first_free(name, start, taken, k) && free == candidate(name, start, k)
}

/// `free` is the first candidate for `name` that is not among `taken`.
pub open spec fn first_candidate(
    name: Seq<char>,
    start: nat,
    taken: Seq<Seq<char>>,
    free: Seq<char>,
) -> bool {
    exists|k: nat| picked(name, start, taken, k, free)
}

/// `choice` is the first candidate for `name` that is not among `taken`,
/// or no name at all where every candidate that can be written is taken.
pub open spec fn first_available(
    name: Seq<char>,
    start: nat,
    taken: Seq<Seq<char>>,
    choice: Option<Seq<char>>,
) -> bool {
    match choice {
        Some(free) => first_candidate(name, start, taken, free),
        None => forall|k: nat|
            in_reach(start, k) ==> taken.contains(#[trigger] candidate(name, start, k)),
    }
}

proof fn lemma_search(name: Seq<char>, start: nat, taken: Seq<Seq<char>>, k: nat)
    requires
        forall|j: nat| j < k ==> in_reach(start, j) && taken.contains(
            #[trigger] candidate(name, start, j),
        ),
    ensures
        first_available(name, start, taken, search(name, start, taken, k)),
        search(name, start, taken, k) matches Some(free) ==> !taken.contains(free),
    decreases taken.len() + 1 - k,
{
    lemma_candidates_counted(name, start, taken, k);
    if !in_reach(start, k) {
        assert forall|j: nat| in_reach(start, j) implies taken.contains(
            #[trigger] candidate(name, start, j),
        ) by {
            assert(j < k);
        }
    } else if !taken.contains(candidate(name, start, k)) {
        assert(picked(name, start, taken, k, candidate(name, start, k)));
    } else {
        lemma_candidates_counted(name, start, taken, k + 1);
        lemma_search(name, start, taken, k + 1);
    }
}

/// The name that a file gets is not among those taken, and it is the first
/// such candidate. A file gets no name only where every candidate that can
/// be written is taken.
pub proof fn lemma_available_is_first(name: Seq<char>, start: nat, taken: Seq<Seq<char>>)
    ensures
        first_available(name, start, taken, available_of(name, start, taken)),
        available_of(name, start, taken) matches Some(free) ==> !taken.contains(free),
{
    lemma_search(name, start, taken, 0);
}

/// The name under which a file called `name` can be stored beside the
/// files `taken`.
pub fn available_name(name: &str, start: usize, taken: &Vec<String>) -> (r: Option<String>)
    ensures
        r.deep_view() == available_of(name@, start as nat, taken.deep_view()),
{
    let ghost listing = taken.deep_view();
    let mut k: usize = 0;
    loop
        invariant
            k <= taken.len(),
            listing == taken.deep_view(),
            listing.len() == taken.len(),
            available_of(name@, start as nat, listing) == search(
                name@,
                start as nat,
                listing,
                k as nat,
            ),
            forall|j: nat| j < k ==> listing.contains(#[trigger] candidate(name@, start as nat, j)),
        decreases taken.len() - k,
    {
        if k > 0 && start > usize::MAX - (k - 1) {
            return None;
        }
        let tried = if k == 0 {
            name.to_string()
        } else {
            numbered_name(name, start + (k - 1))
        };
        assert(tried@ == candidate(name@, start as nat, k as nat));
        if !listed(taken, tried.as_str()) {
            return Some(tried);
        }
        proof {
            lemma_candidates_counted(name@, start as nat, listing, (k + 1) as nat);
        }
        k += 1;
    }
}

/// The path `base` with `name` behind it. A `name` that begins with `/`
/// stands alone; else a `/` comes between the two unless `base` is empty or
/// ends with one.
pub open spec fn joined(base: Seq<char>, name: Seq<char>) -> Seq<char> {
    if name.len() > 0 && name.first() == '/' {
        name
    } else if base.len() == 0 || base.last() == '/' {
        base + name
    } else {
        base + seq!['/'] + name
    }
}

/// The path `base` with `name` behind it.
pub fn join(base: &str, name: &str) -> (r: String)
    ensures
        r@ == joined(base@, name@),
{
    let cn = chars_of(name);
    if cn.len() > 0 && cn[0] == '/' {
        return name.to_string();
    }
    let cb = chars_of(base);
    let mut r = base.to_string();
    if cb.len() > 0 && cb[cb.len() - 1] != '/' {
        proof {
            reveal_strlit("/");
        }
        r.append("/");
        assert("/"@ == seq!['/']);
    }
    r.append(name);
    r
}

/// `name` holds no `/`: it names something directly in a folder.
pub open spec fn plain(name: Seq<char>) -> bool {
    forall|i: int| 0 <= i < name.len() ==> #[trigger] name[i] != '/'
}

/// The file name of a path is not empty and holds no `/`.
pub proof fn lemma_file_name_is_plain(p: Seq<char>)
    ensures
        file_name_of(p) is Some ==> file_name_of(p).unwrap().len() > 0 && plain(
            file_name_of(p).unwrap(),
        ),
    decreases p.len(),
{
    if p.len() > 0 {
        if p.last() == '/' {
            lemma_file_name_is_plain(p.drop_last());
        } else {
            lemma_last_index_of(p, '/');
            if last_segment(p) == seq!['.'] {
                lemma_file_name_is_plain(p.drop_last());
            }
        }
    }
}

/// Numbering a name that holds no `/` gives a name that holds none.
pub proof fn lemma_numbered_is_plain(name: Seq<char>, n: nat)
    requires
        plain(name),
    ensures
        plain(numbered(name, n)),
{
    lemma_decimal_round_trip(n);
    lemma_last_index_of(name, '.');
    let d = decimal_text(n);
    let new = numbered(name, n);
    let cut = match extension_dot(name) {
        Some(i) => i,
        None => name.len() as int,
    };
    assert(new == name.take(cut) + seq!['_'] + d + name.skip(cut));
    assert forall|k: int| 0 <= k < new.len() implies #[trigger] new[k] != '/' by {
        if k < cut {
            assert(new[k] == name[k]);
        } else if k == cut {
            assert(new[k] == '_');
        } else if k <= cut + d.len() {
            assert(new[k] == d[k - cut - 1]);
            assert(is_digit(d[k - cut - 1]));
        } else {
            assert(new[k] == name[k - 1 - d.len()]);
        }
    }
}

/// The name that a file gets beside the files taken is not empty and holds
/// no `/` if that is so of the name of the file.
pub proof fn lemma_available_is_plain(name: Seq<char>, start: nat, taken: Seq<Seq<char>>)
    requires
        name.len() > 0,
        plain(name),
    ensures
        available_of(name, start, taken) is Some ==> available_of(name, start, taken).unwrap().len()
            > 0 && plain(available_of(name, start, taken).unwrap()),
{
    lemma_available_is_first(name, start, taken);
    if available_of(name, start, taken) is Some {
        let free = available_of(name, start, taken).unwrap();
        assert(first_candidate(name, start, taken, free));
        let k = choose|k: nat| picked(name, start, taken, k, free);
        if k > 0 {
            lemma_numbered_is_plain(name, (start + k - 1) as nat);
            assert(numbered(name, (start + k - 1) as nat).len() > 0);
        }
    }
}

/// The path `p` is the folder `folder` or lies below it: it is that path,
/// or begins with that path and a `/`.
pub open spec fn within(p: Seq<char>, folder: Seq<char>) -> bool {
    p == folder || (folder + seq!['/']).is_prefix_of(p)
}

/// Tells whether the path `p` is the folder `folder` or lies below it.
pub fn is_within(p: &str, folder: &str) -> (r: bool)
    ensures
        r == within(p@, folder@),
{
    if same(p, folder) {
        return true;
    }
    let mut head = folder.to_string();
    proof {
        reveal_strlit("/");
    }
    head.append("/");
    assert(head@ == folder@ + seq!['/']);
    starts_with(p, head.as_str())
}

/// The file name `name` has the extension `apk`.
pub open spec fn names_apk(name: Seq<char>) -> bool {
    extension_of(name) == Some(seq!['a', 'p', 'k'])
}

/// The paths, below the folder `folder`, of those files among `names` that
/// have the extension `apk`, in the order of `names`.
pub open spec fn apk_paths_of(folder: Seq<char>, names: Seq<Seq<char>>) -> Seq<Seq<char>> {
    names.filter(|name: Seq<char>| names_apk(name)).map_values(
        |name: Seq<char>| joined(folder, name),
    )
}

/// The paths, below the folder `folder`, of those files among `names` that
/// have the extension `apk`.
pub fn apk_paths(folder: &str, names: &Vec<String>) -> (r: Vec<String>)
    ensures
        r.deep_view() == apk_paths_of(folder@, names.deep_view()),
{
    let mut out: Vec<String> = Vec::new();
    let ghost all = names.deep_view();
    let ghost keep = |name: Seq<char>| names_apk(name);
    let ghost place = |name: Seq<char>| joined(folder@, name);
    let mut i: usize = 0;
    proof {
        reveal(Seq::filter);
        assert(out.deep_view() =~= Seq::empty());
        assert(all.take(0) =~= Seq::empty());
        assert(all.take(0).filter(keep).map_values(place) =~= Seq::empty());
    }
    while i < names.len()
        invariant
            i <= names.len(),
            all == names.deep_view(),
            keep == |name: Seq<char>| names_apk(name),
            place == |name: Seq<char>| joined(folder@, name),
            out.deep_view() == all.take(i as int).filter(keep).map_values(place),
        decreases names.len() - i,
    {
        let name = names[i].as_str();
        proof {
            reveal(Seq::filter);
            assert(all.take(i + 1).drop_last() == all.take(i as int));
            assert(all.take(i + 1).last() == name@);
        }
        if is_apk(name) {
            let ghost before = out.deep_view();
            let path = join(folder, name);
            out.push(path);
            assert(out.deep_view() =~= before.push(joined(folder@, name@)));
            assert(all.take(i as int).filter(keep).push(name@).map_values(place)
                =~= all.take(i as int).filter(keep).map_values(place).push(place(name@)));
        }
        i += 1;
    }
    assert(all.take(names.len() as int) == all);
    out
}

} // verus!
