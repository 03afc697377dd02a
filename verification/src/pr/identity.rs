//! How a repository is recognised across moves and clones: by its first
//! commit and by a hash of its remote URLs.
use vstd::prelude::*;
use vstd::utf8::encode_utf8;

use sha2::{Digest, Sha256};

use crate::text::{
    chars_of, lemma_text_le_antisymmetric, lemma_text_le_total_transitive, push_char, string_from_str,
    string_views, text_le, text_le_exec,
};

verus! {

/// The SHA-256 digest of some bytes.
pub uninterp spec fn sha256_digest(data: Seq<u8>) -> Seq<u8>;

/// `sha2::Sha256::digest`: the result is named `sha256_digest`, a function
/// of the bytes alone, and is 32 bytes long.
#[verifier::external_body]
fn sha256(data: &[u8]) -> (d: Vec<u8>)
    ensures
        d@ == sha256_digest(data@),
        d@.len() == 32,
{
    Sha256::digest(data).to_vec()
}

/// The lower-case hexadecimal digit of a number below 16.
pub open spec fn hex_digit(n: u8) -> char {
    if n < 10 {
        (48 + n) as char
    } else {
        (87 + n) as char
    }
}

/// Each byte as two lower-case hexadecimal digits, high digit first.
pub open spec fn hex_lower(bytes: Seq<u8>) -> Seq<char>
    decreases bytes.len(),
{
    if bytes.len() == 0 {
        Seq::empty()
    } else {
        hex_lower(bytes.drop_last()) + seq![hex_digit(bytes.last() / 16), hex_digit(bytes.last() % 16)]
    }
}

/// The UTF-8 bytes of the texts, one after another.
pub open spec fn url_bytes(urls: Seq<Seq<char>>) -> Seq<u8>
    decreases urls.len(),
{
    if urls.len() == 0 {
        Seq::empty()
    } else {
        url_bytes(urls.drop_last()) + encode_utf8(urls.last())
    }
}

/// Texts in ascending order.
pub open spec fn sorted_texts(s: Seq<Seq<char>>) -> bool {
    forall|i: int, j: int| 0 <= i < j < s.len() ==> text_le(#[trigger] s[i], #[trigger] s[j])
}

/// The texts in ascending order: the one sorted arrangement of them.
pub open spec fn sorted_arrangement(urls: Seq<Seq<char>>) -> Seq<Seq<char>> {
    choose|s: Seq<Seq<char>>| sorted_texts(s) && s.to_multiset() == urls.to_multiset()
}

/// The remote fingerprint of a repository whose remotes have these URLs:
/// `no-remotes` when there are none, otherwise the lower-case hexadecimal
/// SHA-256 of the URLs' bytes taken in ascending order.
pub open spec fn remote_hash(urls: Seq<Seq<char>>) -> Seq<char> {
    if urls.len() == 0 {
        "no-remotes"@
    } else {
        hex_lower(sha256_digest(url_bytes(sorted_arrangement(urls))))
    }
}

/// Two sorted arrangements of the same texts are the same sequence.
pub proof fn lemma_sorted_unique(a: Seq<Seq<char>>, b: Seq<Seq<char>>)
    requires
        sorted_texts(a),
        sorted_texts(b),
        a.to_multiset() == b.to_multiset(),
    ensures
        a == b,
    decreases a.len(),
{
    broadcast use vstd::seq_lib::group_to_multiset_ensures;

    if a.len() == 0 {
        assert(b.to_multiset().len() == 0);
        assert(a =~= b);
    } else {
        assert(a.to_multiset().len() == a.len());
        assert(b.to_multiset().len() == b.len());
        assert(a.to_multiset().count(a[0]) > 0);
        assert(b.contains(a[0]));
        let j = choose|j: int| 0 <= j < b.len() && b[j] == a[0];
        assert(b.to_multiset().count(b[0]) > 0);
        assert(a.contains(b[0]));
        let k = choose|k: int| 0 <= k < a.len() && a[k] == b[0];
        if j > 0 {
            assert(text_le(b[0], b[j]));
        } else {
            lemma_text_le_total_transitive(b[0], b[0], b[0]);
        }
        if k > 0 {
            assert(text_le(a[0], a[k]));
        } else {
            lemma_text_le_total_transitive(a[0], a[0], a[0]);
        }
        lemma_text_le_antisymmetric(a[0], b[0]);
        let a1 = a.remove(0);
        let b1 = b.remove(0);
        assert(a1.to_multiset() == b1.to_multiset());
        assert(sorted_texts(a1)) by {
            assert forall|x: int, y: int| 0 <= x < y < a1.len() implies text_le(#[trigger] a1[x], #[trigger] a1[y]) by {
                assert(a1[x] == a[x + 1] && a1[y] == a[y + 1]);
            }
        }
        assert(sorted_texts(b1)) by {
            assert forall|x: int, y: int| 0 <= x < y < b1.len() implies text_le(#[trigger] b1[x], #[trigger] b1[y]) by {
                assert(b1[x] == b[x + 1] && b1[y] == b[y + 1]);
            }
        }
        lemma_sorted_unique(a1, b1);
        assert(a =~= b) by {
            assert forall|i: int| 0 <= i < a.len() implies a[i] == b[i] by {
                if i > 0 {
                    assert(a[i] == a1[i - 1]);
                    assert(b[i] == b1[i - 1]);
                }
            }
        }
    }
}

/// Where a text goes in a sorted list: after every text that comes no
/// later than it.
fn insert_position(v: &Vec<String>, key: &[char]) -> (p: usize)
    ensures
        p <= v@.len(),
        forall|j: int| 0 <= j < p ==> text_le(#[trigger] string_views(v@)[j], key@),
        p < v@.len() ==> !text_le(string_views(v@)[p as int], key@),
{
    let n = v.len();
    let mut p: usize = 0;
    while p < n
        invariant
            n == v@.len(),
            p <= n,
            forall|j: int| 0 <= j < p ==> text_le(#[trigger] string_views(v@)[j], key@),
        decreases n - p,
    {
        let other = chars_of(v[p].as_str());
        if !text_le_exec(other.as_slice(), key) {
            return p;
        }
        p = p + 1;
    }
    p
}

/// The texts in ascending order.
pub(crate) fn sort_texts(items: Vec<String>) -> (out: Vec<String>)
    ensures
        sorted_texts(string_views(out@)),
        string_views(out@).to_multiset() == string_views(items@).to_multiset(),
{
    broadcast use vstd::seq_lib::group_to_multiset_ensures, vstd::multiset::group_multiset_axioms;

    let mut out: Vec<String> = Vec::new();
    let n = items.len();
    let mut rest = items;
    let ghost all = string_views(rest@);
    proof {
        assert(string_views(out@) =~= Seq::<Seq<char>>::empty());
        assert(all.subrange(0, 0) =~= Seq::<Seq<char>>::empty());
    }
    while rest.len() > 0
        invariant
            n == all.len(),
            rest@.len() <= n,
            string_views(rest@) == all.subrange(0, rest@.len() as int),
            sorted_texts(string_views(out@)),
            string_views(out@).to_multiset().add(string_views(rest@).to_multiset()) == all.to_multiset(),
        decreases rest@.len(),
    {
        let ghost before_rest = string_views(rest@);
        let ghost old_rest = rest@;
        let s = rest.pop().unwrap();
        let ghost sv = s@;
        proof {
            assert(old_rest =~= rest@.push(s));
            assert(before_rest =~= string_views(rest@).push(sv));
            assert forall|i: int| 0 <= i < rest@.len() implies string_views(rest@)[i] == all.subrange(
                0,
                rest@.len() as int,
            )[i] by {
                assert(before_rest[i] == string_views(rest@)[i]);
                assert(before_rest[i] == all[i]);
            }
            assert(string_views(rest@) =~= all.subrange(0, rest@.len() as int));
        }
        let key = chars_of(s.as_str());
        let ghost v = string_views(out@);
        let p = insert_position(&out, key.as_slice());
        out.insert(p, s);
        proof {
            let w = string_views(out@);
            assert(w =~= v.insert(p as int, sv));
            vstd::seq_lib::to_multiset_insert(v, p as int, sv);
            assert(w.to_multiset() == v.to_multiset().insert(sv));
            vstd::seq_lib::to_multiset_build(string_views(rest@), sv);
            assert(before_rest.to_multiset() == string_views(rest@).to_multiset().insert(sv));
            assert(w.to_multiset().add(string_views(rest@).to_multiset()) =~= v.to_multiset().add(before_rest.to_multiset()));
            assert forall|i: int, j: int| 0 <= i < j < w.len() implies text_le(#[trigger] w[i], #[trigger] w[j]) by {
                if j < p {
                    assert(w[i] == v[i] && w[j] == v[j]);
                } else if j == p {
                    assert(w[i] == v[i]);
                } else if i < p {
                    assert(w[i] == v[i]);
                    assert(w[j] == v[j - 1]);
                } else if i == p {
                    assert(w[j] == v[j - 1]);
                    lemma_text_le_total_transitive(v[p as int], sv, sv);
                    lemma_text_le_total_transitive(sv, v[p as int], v[j - 1]);
                    if j - 1 > p {
                        assert(text_le(v[p as int], v[j - 1]));
                    }
                } else {
                    assert(w[i] == v[i - 1]);
                    assert(w[j] == v[j - 1]);
                }
            }
        }
    }
    proof {
        assert(string_views(rest@) =~= Seq::<Seq<char>>::empty());
        assert(string_views(out@).to_multiset() =~= string_views(out@).to_multiset().add(
            string_views(rest@).to_multiset(),
        ));
    }
    out
}

/// The UTF-8 bytes of the strings, one after another.
fn concat_bytes(v: &Vec<String>) -> (out: Vec<u8>)
    ensures
        out@ == url_bytes(string_views(v@)),
{
    let n = v.len();
    let mut out: Vec<u8> = Vec::new();
    let mut i: usize = 0;
    while i < n
        invariant
            n == v@.len(),
            i <= n,
            out@ == url_bytes(string_views(v@).take(i as int)),
        decreases n - i,
    {
        let b = v[i].as_str().as_bytes();
        let m = b.len();
        let ghost start = out@;
        let mut j: usize = 0;
        while j < m
            invariant
                m == b@.len(),
                j <= m,
                out@ == start + b@.take(j as int),
            decreases m - j,
        {
            out.push(b[j]);
            j = j + 1;
            proof {
                assert(out@ =~= start + b@.take(j as int));
            }
        }
        proof {
            assert(b@.take(m as int) =~= b@);
            assert(string_views(v@).take(i as int + 1).drop_last() =~= string_views(v@).take(i as int));
            assert(string_views(v@).take(i as int + 1).last() == v@[i as int]@);
        }
        i = i + 1;
    }
    proof {
        assert(string_views(v@).take(n as int) =~= string_views(v@));
    }
    out
}

/// The lower-case hexadecimal digit of a number below 16.
fn hex_digit_exec(n: u8) -> (c: char)
    requires
        n < 16,
    ensures
        c == hex_digit(n),
{
    if n < 10 {
        (48u8 + n) as char
    } else {
        (87u8 + n) as char
    }
}

/// The bytes as lower-case hexadecimal, two digits each.
fn hex_string(bytes: &[u8]) -> (s: String)
    ensures
        s@ == hex_lower(bytes@),
{
    let n = bytes.len();
    let mut s = String::new();
    let mut i: usize = 0;
    while i < n
        invariant
            n == bytes@.len(),
            i <= n,
            s@ == hex_lower(bytes@.take(i as int)),
        decreases n - i,
    {
        let b = bytes[i];
        push_char(&mut s, hex_digit_exec(b / 16));
        push_char(&mut s, hex_digit_exec(b % 16));
        proof {
            assert(bytes@.take(i as int + 1).drop_last() =~= bytes@.take(i as int));
            assert(bytes@.take(i as int + 1).last() == b);
            assert(s@ =~= hex_lower(bytes@.take(i as int + 1)));
        }
        i = i + 1;
    }
    proof {
        assert(bytes@.take(n as int) =~= bytes@);
    }
    s
}

/// The fingerprint of a repository's remote URLs: `no-remotes` when it has
/// none, otherwise the lower-case hexadecimal SHA-256 of the URLs' bytes in
/// ascending order of the URLs.
pub fn compute_remote_urls_hash(urls: Vec<String>) -> (h: String)
    ensures
        h@ == remote_hash(string_views(urls@)),
{
    if urls.len() == 0 {
        return string_from_str("no-remotes");
    }
    let ghost given = string_views(urls@);
    let sorted = sort_texts(urls);
    proof {
        let s = string_views(sorted@);
        let c = sorted_arrangement(given);
        assert(sorted_texts(c) && c.to_multiset() == given.to_multiset());
        lemma_sorted_unique(s, c);
    }
    let bytes = concat_bytes(&sorted);
    let digest = sha256(bytes.as_slice());
    hex_string(digest.as_slice())
}

/// The fingerprint the pull-request panels register a repository under: the
/// lower-case hexadecimal SHA-256 of its path's UTF-8 bytes.
pub fn path_identity_hash(path: &str) -> (h: String)
    ensures
        h@ == hex_lower(sha256_digest(encode_utf8(path@))),
{
    let digest = sha256(path.as_bytes());
    hex_string(digest.as_slice())
}

/// The fingerprint depends only on which URLs there are, not on the order
/// the remotes are listed in.
pub proof fn law_remote_hash_ignores_order(a: Seq<Seq<char>>, b: Seq<Seq<char>>)
    requires
        a.to_multiset() == b.to_multiset(),
    ensures
        remote_hash(a) == remote_hash(b),
{
    broadcast use vstd::seq_lib::group_to_multiset_ensures;

    assert(a.to_multiset().len() == a.len());
    assert(b.to_multiset().len() == b.len());
}

/// Hexadecimal text is twice as long as the bytes it shows, so every
/// fingerprint of a repository with remotes is 64 characters long.
pub proof fn law_remote_hash_length(bytes: Seq<u8>)
    ensures
        hex_lower(bytes).len() == 2 * bytes.len(),
    decreases bytes.len(),
{
    if bytes.len() > 0 {
        law_remote_hash_length(bytes.drop_last());
    }
}

} // verus!
