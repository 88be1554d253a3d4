//! Semester picker shaping: the raw semester names a page lists become at
//! most the ten newest entries in descending order, after an optional
//! all-semesters entry.
use vstd::prelude::*;
use vstd::string::StringSliceAdditionalSpecFns;
use vstd::utf8::encode_utf8;

use crate::records::SemesterInfo;

verus! {

/// Byte-lexicographic order: the order `String` comparison gives, which on
/// UTF-8 text is also the code-point order.
pub open spec fn lex_le(a: Seq<u8>, b: Seq<u8>) -> bool
    decreases a.len(),
{
    if a.len() == 0 {
        true
    } else if b.len() == 0 {
        false
    } else if a[0] < b[0] {
        true
    } else if a[0] > b[0] {
        false
    } else {
        lex_le(a.skip(1), b.skip(1))
    }
}

/// The byte sequences of a list of names.
pub open spec fn string_views(list: Seq<String>) -> Seq<Seq<u8>> {
    list.map_values(|s: String| encode_utf8(s@))
}

/// `x` placed into an already descending list, before the first element
/// not above it.
pub open spec fn insert_desc(x: Seq<u8>, l: Seq<Seq<u8>>) -> Seq<Seq<u8>>
    decreases l.len(),
{
    if l.len() == 0 {
        seq![x]
    } else if lex_le(l[0], x) {
        seq![x] + l
    } else {
        seq![l[0]] + insert_desc(x, l.skip(1))
    }
}

/// The list sorted descending, element by element.
pub open spec fn sort_desc_spec(l: Seq<Seq<u8>>) -> Seq<Seq<u8>>
    decreases l.len(),
{
    if l.len() == 0 {
        Seq::empty()
    } else {
        insert_desc(l[0], sort_desc_spec(l.skip(1)))
    }
}

/// Descending byte-lexicographic order: every later element is at most
/// every earlier one.
pub open spec fn sorted_desc(l: Seq<Seq<u8>>) -> bool {
    forall|i: int, j: int| 0 <= i < j < l.len() ==> lex_le(#[trigger] l[j], #[trigger] l[i])
}

proof fn lemma_lex_le_total(a: Seq<u8>, b: Seq<u8>)
    ensures
        lex_le(a, b) || lex_le(b, a),
    decreases a.len(),
{
    if a.len() > 0 && b.len() > 0 && a[0] == b[0] {
        lemma_lex_le_total(a.skip(1), b.skip(1));
    }
}

proof fn lemma_lex_le_trans(a: Seq<u8>, b: Seq<u8>, c: Seq<u8>)
    requires
        lex_le(a, b),
        lex_le(b, c),
    ensures
        lex_le(a, c),
    decreases a.len(),
{
    if a.len() > 0 && c.len() > 0 {
        if b.len() > 0 && a[0] == b[0] && b[0] == c[0] {
            lemma_lex_le_trans(a.skip(1), b.skip(1), c.skip(1));
        }
    }
}

proof fn lemma_insert_desc_bound(x: Seq<u8>, l: Seq<Seq<u8>>, b: Seq<u8>)
    requires
        lex_le(x, b),
        forall|k: int| 0 <= k < l.len() ==> lex_le(#[trigger] l[k], b),
    ensures
        forall|k: int|
            0 <= k < insert_desc(x, l).len() ==> lex_le(#[trigger] insert_desc(x, l)[k], b),
    decreases l.len(),
{
    if l.len() == 0 {
    } else if lex_le(l[0], x) {
    } else {
        lemma_insert_desc_bound(x, l.skip(1), b);
        assert forall|k: int| 0 <= k < insert_desc(x, l).len() implies lex_le(
            #[trigger] insert_desc(x, l)[k],
            b,
        ) by {
            if k > 0 {
                assert(insert_desc(x, l)[k] == insert_desc(x, l.skip(1))[k - 1]);
            }
        }
    }
}

proof fn lemma_insert_desc_sorted(x: Seq<u8>, l: Seq<Seq<u8>>)
    requires
        sorted_desc(l),
    ensures
        sorted_desc(insert_desc(x, l)),
    decreases l.len(),
{
    if l.len() == 0 {
    } else if lex_le(l[0], x) {
        let r = seq![x] + l;
        assert forall|i: int, j: int| 0 <= i < j < r.len() implies lex_le(
            #[trigger] r[j],
            #[trigger] r[i],
        ) by {
            if i == 0 {
                if j > 1 {
                    lemma_lex_le_trans(l[j - 1], l[0], x);
                }
            }
        }
    } else {
        lemma_lex_le_total(l[0], x);
        assert(lex_le(x, l[0]));
        assert(sorted_desc(l.skip(1)));
        lemma_insert_desc_sorted(x, l.skip(1));
        assert forall|k: int| 0 <= k < l.skip(1).len() implies lex_le(
            #[trigger] l.skip(1)[k],
            l[0],
        ) by {
            assert(l.skip(1)[k] == l[k + 1]);
        }
        lemma_insert_desc_bound(x, l.skip(1), l[0]);
        let r = seq![l[0]] + insert_desc(x, l.skip(1));
        assert forall|i: int, j: int| 0 <= i < j < r.len() implies lex_le(
            #[trigger] r[j],
            #[trigger] r[i],
        ) by {
            if i > 0 {
                assert(r[i] == insert_desc(x, l.skip(1))[i - 1]);
                assert(r[j] == insert_desc(x, l.skip(1))[j - 1]);
            } else {
                assert(r[j] == insert_desc(x, l.skip(1))[j - 1]);
            }
        }
    }
}

/// Law: the picker's order really is a sort — the shaped list is
/// descending.
pub proof fn lemma_sort_desc_sorted(l: Seq<Seq<u8>>)
    ensures
        sorted_desc(sort_desc_spec(l)),
    decreases l.len(),
{
    if l.len() > 0 {
        lemma_sort_desc_sorted(l.skip(1));
        lemma_insert_desc_sorted(l[0], sort_desc_spec(l.skip(1)));
    }
}

proof fn lemma_insert_desc_multiset(x: Seq<u8>, l: Seq<Seq<u8>>)
    ensures
        insert_desc(x, l).to_multiset() == l.to_multiset().insert(x),
    decreases l.len(),
{
    broadcast use vstd::seq_lib::group_to_multiset_ensures;

    if l.len() == 0 {
        assert(seq![x] =~= Seq::<Seq<u8>>::empty().push(x));
        assert(seq![x].to_multiset() =~= l.to_multiset().insert(x));
    } else if lex_le(l[0], x) {
        assert(seq![x] + l =~= (seq![x] + l));
        vstd::seq_lib::lemma_multiset_commutative(seq![x], l);
        assert(seq![x] =~= Seq::<Seq<u8>>::empty().push(x));
        assert((seq![x] + l).to_multiset() =~= l.to_multiset().insert(x));
    } else {
        lemma_insert_desc_multiset(x, l.skip(1));
        vstd::seq_lib::lemma_multiset_commutative(seq![l[0]], insert_desc(x, l.skip(1)));
        assert(seq![l[0]] =~= Seq::<Seq<u8>>::empty().push(l[0]));
        assert(l =~= seq![l[0]] + l.skip(1));
        vstd::seq_lib::lemma_multiset_commutative(seq![l[0]], l.skip(1));
        assert((seq![l[0]] + insert_desc(x, l.skip(1))).to_multiset() =~= l.to_multiset().insert(
            x,
        ));
    }
}

/// Law: the picker's order is a permutation — sorting loses and invents
/// no semester name.
pub proof fn lemma_sort_desc_permutes(l: Seq<Seq<u8>>)
    ensures
        sort_desc_spec(l).to_multiset() == l.to_multiset(),
    decreases l.len(),
{
    broadcast use vstd::seq_lib::group_to_multiset_ensures;

    if l.len() > 0 {
        lemma_sort_desc_permutes(l.skip(1));
        lemma_insert_desc_multiset(l[0], sort_desc_spec(l.skip(1)));
        assert(l =~= seq![l[0]] + l.skip(1));
        vstd::seq_lib::lemma_multiset_commutative(seq![l[0]], l.skip(1));
        assert(seq![l[0]] =~= Seq::<Seq<u8>>::empty().push(l[0]));
        assert(sort_desc_spec(l).to_multiset() =~= l.to_multiset());
    }
}

fn str_lex_le(a: &str, b: &str) -> (r: bool)
    ensures
        r == lex_le(a.spec_bytes(), b.spec_bytes()),
{
    let ab = a.as_bytes();
    let bb = b.as_bytes();
    let an = ab.len();
    let bn = bb.len();
    let mut i: usize = 0;
    proof {
        assert(ab@.skip(0) =~= ab@);
        assert(bb@.skip(0) =~= bb@);
    }
    while i < an && i < bn
        invariant
            i <= an,
            i <= bn,
            an == ab@.len(),
            bn == bb@.len(),
            ab@ == a.spec_bytes(),
            bb@ == b.spec_bytes(),
            lex_le(ab@, bb@) == lex_le(ab@.skip(i as int), bb@.skip(i as int)),
        decreases an - i,
    {
        let x = ab[i];
        let y = bb[i];
        if x < y {
            return true;
        }
        if x > y {
            return false;
        }
        proof {
            assert(ab@.skip(i as int).skip(1) =~= ab@.skip(i + 1));
            assert(bb@.skip(i as int).skip(1) =~= bb@.skip(i + 1));
        }
        i = i + 1;
    }
    proof {
        if i == an {
            assert(ab@.skip(i as int) =~= Seq::<u8>::empty());
        } else {
            assert(bb@.skip(i as int) =~= Seq::<u8>::empty());
            assert(ab@.skip(i as int).len() > 0);
        }
    }
    i == an
}

proof fn lemma_insert_desc_at(x: Seq<u8>, l: Seq<Seq<u8>>, j: int)
    requires
        0 <= j <= l.len(),
        forall|k: int| 0 <= k < j ==> !lex_le(#[trigger] l[k], x),
        j == l.len() || lex_le(l[j], x),
    ensures
        insert_desc(x, l) == l.take(j) + seq![x] + l.skip(j),
    decreases j,
{
    if j == 0 {
        if l.len() == 0 {
            assert(l.take(0) + seq![x] + l.skip(0) =~= seq![x]);
        } else {
            assert(l.take(0) + seq![x] + l.skip(0) =~= seq![x] + l);
        }
    } else {
        assert(!lex_le(l[0], x));
        lemma_insert_desc_at(x, l.skip(1), j - 1);
        assert(l.skip(1).take(j - 1) =~= l.take(j).skip(1));
        assert(seq![l[0]] + (l.skip(1).take(j - 1) + seq![x] + l.skip(1).skip(j - 1)) =~= l.take(
            j,
        ) + seq![x] + l.skip(j));
    }
}

fn insert_sorted(acc: &mut Vec<String>, x: String)
    ensures
        string_views(final(acc)@) == insert_desc(encode_utf8(x@), string_views(old(acc)@)),
{
    let n = acc.len();
    let mut j: usize = 0;
    while j < n && !str_lex_le(acc[j].as_str(), x.as_str())
        invariant
            j <= n,
            n == acc@.len(),
            *acc == *old(acc),
            forall|k: int| 0 <= k < j ==> !lex_le(#[trigger] string_views(acc@)[k], encode_utf8(
                x@,
            )),
        decreases n - j,
    {
        j = j + 1;
    }
    proof {
        lemma_insert_desc_at(encode_utf8(x@), string_views(acc@), j as int);
    }
    let ghost before: Seq<String> = acc@;
    acc.insert(j, x);
    proof {
        assert(string_views(acc@) =~= string_views(before).take(j as int) + seq![encode_utf8(
            x@,
        )] + string_views(before).skip(j as int));
    }
}

/// Sorts semester names descending, newest first, exactly as the picker
/// orders them.
pub fn sort_desc(list: Vec<String>) -> (r: Vec<String>)
    ensures
        string_views(r@) == sort_desc_spec(string_views(list@)),
{
    let mut rest = list;
    let mut acc: Vec<String> = Vec::new();
    proof {
        assert(string_views(acc@) =~= Seq::<Seq<u8>>::empty());
        assert(sort_desc_spec(string_views(rest@).skip(rest@.len() as int))
            =~= Seq::<Seq<u8>>::empty());
    }
    let ghost whole: Seq<String> = rest@;
    proof {
        assert(rest@ =~= whole.take(rest@.len() as int));
    }
    while rest.len() > 0
        invariant
            rest@.len() <= whole.len(),
            rest@ == whole.take(rest@.len() as int),
            string_views(acc@) == sort_desc_spec(string_views(whole).skip(rest@.len() as int)),
        decreases rest@.len(),
    {
        let ghost m = rest@.len() as int;
        let x = match rest.pop() {
            Some(x) => x,
            None => {
                return acc;
            },
        };
        proof {
            assert(rest@ =~= whole.take(m - 1));
            assert(x == whole[m - 1]);
            assert(string_views(whole).skip(m - 1)[0] == encode_utf8(whole[m - 1]@));
            assert(string_views(whole).skip(m - 1).skip(1) =~= string_views(whole).skip(m));
        }
        insert_sorted(&mut acc, x);
    }
    proof {
        assert(string_views(whole).skip(0) =~= string_views(whole));
        assert(string_views(rest@) =~= string_views(whole).take(rest@.len() as int));
    }
    acc
}

/// Shapes the semester picker's entries: an optional all-semesters entry,
/// then at most the ten newest semesters in descending order, each entry
/// showing the name it sends back.
pub fn semester_entries(semesters: Vec<String>, is_all: bool) -> (r: Vec<SemesterInfo>)
    ensures
        ({
            let sorted = sort_desc_spec(string_views(semesters@));
            let kept: int = if sorted.len() > 10 {
                10int
            } else {
                sorted.len() as int
            };
            let offset: int = if is_all {
                1int
            } else {
                0int
            };
            &&& r@.len() == offset + kept
            &&& (is_all ==> r@[0].key@ == "全部学期"@ && r@[0].value@ == Seq::<char>::empty())
            &&& forall|k: int|
                0 <= k < kept ==> encode_utf8(#[trigger] r@[offset + k].key@) == sorted[k] && r@[
                    offset + k
                ].value@ == r@[offset + k].key@
        }),
{
    let ghost sorted_ghost = sort_desc_spec(string_views(semesters@));
    let mut sorted = sort_desc(semesters);
    if sorted.len() > 10 {
        sorted.truncate(10);
        proof {
            assert(string_views(sorted@) =~= sorted_ghost.take(10));
        }
    }
    let mut r: Vec<SemesterInfo> = Vec::new();
    if is_all {
        r.push(SemesterInfo { key: "全部学期".to_owned(), value: String::new() });
    }
    let ghost offset: int = r@.len() as int;
    let n = sorted.len();
    let mut k: usize = 0;
    while k < n
        invariant
            k <= n,
            n == sorted@.len(),
            n <= sorted_ghost.len(),
            offset == if is_all { 1int } else { 0int },
            r@.len() == offset + k,
            forall|t: int| 0 <= t < n ==> string_views(sorted@)[t] == sorted_ghost[t],
            is_all ==> r@[0].key@ == "全部学期"@ && r@[0].value@ == Seq::<char>::empty(),
            forall|t: int|
                0 <= t < k ==> encode_utf8(#[trigger] r@[offset + t].key@) == sorted_ghost[t]
                    && r@[offset + t].value@ == r@[offset + t].key@,
        decreases n - k,
    {
        let name = sorted[k].clone();
        let value = sorted[k].clone();
        r.push(SemesterInfo { key: name, value });
        k = k + 1;
    }
    r
}

} // verus!
