//! Byte-level text scanning for the login protocol: whether a fixed marker
//! occurs in a response body, and extraction of the one-time flow token
//! from the VPN login page.
use vstd::prelude::*;

verus! {

/// `needle` occurs in `hay` starting at position `i`.
pub open spec fn matches_at(hay: Seq<u8>, needle: Seq<u8>, i: int) -> bool {
    0 <= i && i + needle.len() <= hay.len() && hay.subrange(i, i + needle.len()) == needle
}

/// `needle` occurs somewhere in `hay`.
pub open spec fn contains_seq(hay: Seq<u8>, needle: Seq<u8>) -> bool {
    exists|i: int| matches_at(hay, needle, i)
}

fn matches_at_exec(hay: &[u8], needle: &[u8], i: usize) -> (r: bool)
    requires
        i + needle@.len() <= hay@.len(),
    ensures
        r == matches_at(hay@, needle@, i as int),
{
    let m = needle.len();
    let hn = hay.len();
    let mut k: usize = 0;
    while k < m
        invariant
            k <= m,
            m == needle@.len(),
            hn == hay@.len(),
            i + m <= hn,
            forall|t: int| 0 <= t < k ==> hay@[i + t] == needle@[t],
        decreases m - k,
    {
        if hay[i + k] != needle[k] {
            proof {
                assert(hay@.subrange(i as int, i + m)[k as int] != needle@[k as int]);
            }
            return false;
        }
        k = k + 1;
    }
    proof {
        assert(hay@.subrange(i as int, i + m) =~= needle@);
    }
    true
}

/// Whether the marker occurs anywhere in the body.
pub fn contains_bytes(hay: &[u8], needle: &[u8]) -> (r: bool)
    ensures
        r == contains_seq(hay@, needle@),
{
    let n = hay.len();
    let m = needle.len();
    if m > n {
        proof {
            assert(forall|i: int| !matches_at(hay@, needle@, i));
        }
        return false;
    }
    if m == 0 {
        proof {
            assert(hay@.subrange(0, 0) =~= needle@);
            assert(matches_at(hay@, needle@, 0));
        }
        return true;
    }
    let mut i: usize = 0;
    while i <= n - m
        invariant
            0 < m <= n,
            n == hay@.len(),
            m == needle@.len(),
            i <= n - m + 1,
            forall|t: int| 0 <= t < i ==> !matches_at(hay@, needle@, t),
        decreases n - i,
    {
        if matches_at_exec(hay, needle, i) {
            return true;
        }
        i = i + 1;
    }
    proof {
        assert(forall|t: int| !matches_at(hay@, needle@, t));
    }
    false
}

/// The fixed textual pattern that precedes the flow token on the VPN login
/// page: `flowExecutionKey: "`.
pub open spec fn flow_prefix() -> Seq<u8> {
    seq![
        0x66u8, 0x6cu8, 0x6fu8, 0x77u8, 0x45u8, 0x78u8, 0x65u8, 0x63u8,
        0x75u8, 0x74u8, 0x69u8, 0x6fu8, 0x6eu8, 0x4bu8, 0x65u8, 0x79u8,
        0x3au8, 0x20u8, 0x22u8,
    ]
}

/// Builds the prefix as bytes for scanning.
fn flow_prefix_bytes() -> (v: Vec<u8>)
    ensures
        v@ == flow_prefix(),
{
    let mut v: Vec<u8> = Vec::new();
    v.push(0x66);
    v.push(0x6c);
    v.push(0x6f);
    v.push(0x77);
    v.push(0x45);
    v.push(0x78);
    v.push(0x65);
    v.push(0x63);
    v.push(0x75);
    v.push(0x74);
    v.push(0x69);
    v.push(0x6f);
    v.push(0x6e);
    v.push(0x4b);
    v.push(0x65);
    v.push(0x79);
    v.push(0x3a);
    v.push(0x20);
    v.push(0x22);
    proof {
        assert(v@ =~= flow_prefix());
    }
    v
}

/// Position of the first closing quote at or after `j`, scanning within the
/// current line only: a line break ends the scan without a find.
pub open spec fn scan_quote(body: Seq<u8>, j: int) -> Option<int>
    decreases body.len() - j,
{
    if j < 0 || j >= body.len() {
        None
    } else if body[j] == 34u8 {
        Some(j)
    } else if body[j] == 10u8 {
        None
    } else {
        scan_quote(body, j + 1)
    }
}

/// The first position at or after `i` where the prefix occurs and a closing
/// quote follows on the same line, together with that quote's position.
pub open spec fn find_token_from(body: Seq<u8>, i: int) -> Option<(int, int)>
    decreases body.len() - i,
{
    if i < 0 || i + flow_prefix().len() > body.len() {
        None
    } else if matches_at(body, flow_prefix(), i) && scan_quote(
        body,
        i + flow_prefix().len(),
    ) is Some {
        Some((i, scan_quote(body, i + flow_prefix().len())->Some_0))
    } else {
        find_token_from(body, i + 1)
    }
}

/// The flow token carried by a page body: the bytes between the first
/// matched prefix and the closing quote on the same line; nothing when no
/// such pattern occurs.
pub open spec fn flow_token_of(body: Seq<u8>) -> Option<Seq<u8>> {
    match find_token_from(body, 0) {
        Some((s, e)) => Some(body.subrange(s + flow_prefix().len(), e)),
        None => None,
    }
}

fn scan_quote_exec(body: &[u8], start: usize) -> (r: Option<usize>)
    requires
        start <= body@.len(),
    ensures
        match r {
            Some(j) => scan_quote(body@, start as int) == Some(j as int) && start <= j
                < body@.len(),
            None => scan_quote(body@, start as int) is None,
        },
{
    let n = body.len();
    let mut j: usize = start;
    while j < n
        invariant
            n == body@.len(),
            start <= j <= n,
            scan_quote(body@, start as int) == scan_quote(body@, j as int),
        decreases n - j,
    {
        let b = body[j];
        if b == 34 {
            return Some(j);
        }
        if b == 10 {
            return None;
        }
        j = j + 1;
    }
    None
}

/// Extracts the flow token from a page body, reading the first occurrence
/// of the fixed pattern.
pub fn extract_flow_key(body: &[u8]) -> (r: Option<Vec<u8>>)
    ensures
        r is Some <==> flow_token_of(body@) is Some,
        r matches Some(key) ==> (flow_token_of(body@) matches Some(t) && key@ == t),
{
    let n = body.len();
    let prefix = flow_prefix_bytes();
    if n < 19 {
        proof {
            assert(find_token_from(body@, 0) is None);
        }
        return None;
    }
    let mut i: usize = 0;
    while i <= n - 19
        invariant
            n == body@.len(),
            n >= 19,
            prefix@ == flow_prefix(),
            i <= n - 19 + 1,
            find_token_from(body@, 0) == find_token_from(body@, i as int),
        decreases n - i,
    {
        if matches_at_exec(body, prefix.as_slice(), i) {
            match scan_quote_exec(body, i + 19) {
                Some(j) => {
                    let mut key: Vec<u8> = Vec::new();
                    let mut t: usize = i + 19;
                    proof {
                        assert(key@ =~= body@.subrange(i + 19, i + 19));
                    }
                    while t < j
                        invariant
                            i + 19 <= t <= j,
                            j < n == body@.len(),
                            key@ == body@.subrange(i + 19, t as int),
                        decreases j - t,
                    {
                        key.push(body[t]);
                        proof {
                            assert(key@ =~= body@.subrange(i + 19, t + 1));
                        }
                        t = t + 1;
                    }
                    proof {
                        assert(find_token_from(body@, i as int) == Some((i as int, j as int)));
                    }
                    return Some(key);
                },
                None => {
                    proof {
                        assert(find_token_from(body@, i as int) == find_token_from(
                            body@,
                            i + 1,
                        ));
                    }
                },
            }
        } else {
            proof {
                assert(find_token_from(body@, i as int) == find_token_from(body@, i + 1));
            }
        }
        i = i + 1;
    }
    proof {
        assert(find_token_from(body@, i as int) is None);
    }
    None
}

} // verus!
