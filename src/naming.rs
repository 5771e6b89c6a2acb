//! Output naming: `hex(sha256(path)) + "_" + basename` with the `.dcm`
//! extension turned into `.png`.

use sha2::{Digest, Sha256};
use vstd::prelude::*;
use vstd::string::*;
use vstd::utf8::{decode_utf8, encode_utf8};

verus! {

/// The SHA-256 digest of a byte sequence.
pub uninterp spec fn sha256_of(data: Seq<u8>) -> Seq<u8>;

/// Relies on sha2's `Sha256::digest`: the 32-byte digest of the input,
/// determined by the input bytes alone.
#[verifier::external_body]
fn sha256_digest(data: &[u8]) -> (r: Vec<u8>)
    ensures
        r@ == sha256_of(data@),
        r@.len() == 32,
{
    Sha256::digest(data).to_vec()
}

/// Relies on `String::push`: appends one character at the end.
#[verifier::external_body]
fn push_char(s: &mut String, c: char)
    ensures
        final(s)@ == old(s)@.push(c),
{
    s.push(c);
}

/// The lowercase hexadecimal digit for a value below 16.
pub open spec fn hex_digit(n: u8) -> char {
    if n < 10 {
        (n + 48) as char
    } else {
        (n + 87) as char
    }
}

/// Lowercase hex rendering, two digits per byte, high nibble first.
pub open spec fn hex_of(b: Seq<u8>) -> Seq<char>
    decreases b.len(),
{
    if b.len() == 0 {
        Seq::empty()
    } else {
        let x = b.last();
        hex_of(b.drop_last()).push(hex_digit(x / 16)).push(hex_digit(x % 16))
    }
}

fn hex_char(n: u8) -> (c: char)
    requires
        n < 16,
    ensures
        c == hex_digit(n),
{
    if n < 10 {
        (n + 48) as char
    } else {
        (n + 87) as char
    }
}

/// Renders bytes as lowercase hex.
pub fn to_hex(b: &[u8]) -> (r: String)
    ensures
        r@ == hex_of(b@),
{
    let mut r = String::new();
    let mut i: usize = 0;
    while i < b.len()
        invariant
            i <= b@.len(),
            r@ == hex_of(b@.subrange(0, i as int)),
        decreases b@.len() - i,
    {
        let x = b[i];
        push_char(&mut r, hex_char(x / 16));
        push_char(&mut r, hex_char(x % 16));
        assert(b@.subrange(0, i + 1).drop_last() =~= b@.subrange(0, i as int));
        i += 1;
    }
    assert(b@.subrange(0, i as int) =~= b@);
    r
}

/// Whether the path ends in `/` or in a `.` component that follows a `/`:
/// neither names the final component.
pub open spec fn has_empty_tail(p: Seq<char>) -> bool {
    p.len() > 0 && (p.last() == '/' || (p.len() >= 2 && p.last() == '.' && p[p.len() - 2] == '/'))
}

/// The path with trailing `/` separators and `.` components removed.
pub open spec fn trim_tail(p: Seq<char>) -> Seq<char>
    decreases p.len(),
{
    if has_empty_tail(p) {
        trim_tail(p.drop_last())
    } else {
        p
    }
}

/// What follows the last `/` (the whole sequence when it holds none).
pub open spec fn last_segment(p: Seq<char>) -> Seq<char>
    decreases p.len(),
{
    if p.len() == 0 || p.last() == '/' {
        Seq::empty()
    } else {
        last_segment(p.drop_last()).push(p.last())
    }
}

/// The final component of a `/`-separated path, once trailing separators
/// and `.` components are dropped; none when it is empty, `.` or `..`.
pub open spec fn file_name_of(p: Seq<char>) -> Option<Seq<char>> {
    let seg = last_segment(trim_tail(p));
    if seg.len() == 0 || seg == seq!['.'] || seg == seq!['.', '.'] {
        None
    } else {
        Some(seg)
    }
}

/// The placeholder used for a path with no final component.
pub open spec fn unknown_name() -> Seq<char> {
    seq!['u', 'n', 'k', 'n', 'o', 'w', 'n']
}

pub open spec fn source_ext() -> Seq<char> {
    seq!['.', 'd', 'c', 'm']
}

pub open spec fn target_ext() -> Seq<char> {
    seq!['.', 'p', 'n', 'g']
}

/// A name that ends in `.dcm`.
pub open spec fn ends_with_source_ext(name: Seq<char>) -> bool {
    name.len() >= 4 && name.subrange(name.len() - 4, name.len() as int) == source_ext()
}

/// A file name with a non-empty stem and the extension `dcm`.
pub open spec fn is_source_name(name: Seq<char>) -> bool {
    name.len() > 4 && ends_with_source_ext(name)
}

/// The name with its final `.dcm` replaced by `.png`, or `.png` appended
/// when it does not end in `.dcm`.
pub open spec fn png_name(name: Seq<char>) -> Seq<char> {
    if ends_with_source_ext(name) {
        name.subrange(0, name.len() - 4) + target_ext()
    } else {
        name + target_ext()
    }
}

/// The base name that the output is derived from.
pub open spec fn base_of(p: Seq<char>) -> Seq<char> {
    match file_name_of(p) {
        Some(n) => n,
        None => unknown_name(),
    }
}

/// The output file name of an input path.
pub open spec fn output_name(p: Seq<char>) -> Seq<char> {
    hex_of(sha256_of(encode_utf8(p))) + seq!['_'] + png_name(base_of(p))
}

pub(crate) fn to_chars(s: &str) -> (v: Vec<char>)
    ensures
        v@ == s@,
{
    let n = s.unicode_len();
    let mut v: Vec<char> = Vec::new();
    let mut i: usize = 0;
    while i < n
        invariant
            n == s@.len(),
            i <= n,
            v@ == s@.subrange(0, i as int),
        decreases n - i,
    {
        v.push(s.get_char(i));
        i += 1;
    }
    assert(v@ =~= s@);
    v
}

/// The bounds `(start, end)` of the final component of `p`.
pub(crate) fn segment_bounds(p: &Vec<char>) -> (r: (usize, usize))
    ensures
        r.0 <= r.1 <= p@.len(),
        p@.subrange(r.0 as int, r.1 as int) == last_segment(trim_tail(p@)),
{
    let mut e: usize = p.len();
    assert(p@.subrange(0, e as int) =~= p@);
    while e > 0 && (p[e - 1] == '/' || (e >= 2 && p[e - 1] == '.' && p[e - 2] == '/'))
        invariant
            e <= p@.len(),
            trim_tail(p@) == trim_tail(p@.subrange(0, e as int)),
        decreases e,
    {
        assert(p@.subrange(0, e as int).drop_last() =~= p@.subrange(0, e - 1));
        e -= 1;
    }
    let ghost t = p@.subrange(0, e as int);
    assert(trim_tail(t) == t);
    let mut b: usize = e;
    while b > 0 && p[b - 1] != '/'
        invariant
            b <= e <= p@.len(),
            t == p@.subrange(0, e as int),
            last_segment(t) == last_segment(p@.subrange(0, b as int)) + p@.subrange(
                b as int,
                e as int,
            ),
        decreases b,
    {
        let ghost q = p@.subrange(0, b as int);
        assert(q.drop_last() =~= p@.subrange(0, b - 1));
        assert(p@.subrange(b - 1, e as int) =~= seq![q.last()] + p@.subrange(b as int, e as int));
        assert(last_segment(q) == last_segment(p@.subrange(0, b - 1)).push(q.last()));
        assert(last_segment(p@.subrange(0, b - 1)).push(q.last()) + p@.subrange(b as int, e as int)
            =~= last_segment(p@.subrange(0, b - 1)) + p@.subrange(b - 1, e as int));
        b -= 1;
    }
    assert(last_segment(p@.subrange(0, b as int)) =~= Seq::<char>::empty());
    assert(Seq::<char>::empty() + p@.subrange(b as int, e as int) =~= p@.subrange(
        b as int,
        e as int,
    ));
    (b, e)
}

/// Appends `v[lo..hi]` to `s`.
fn push_range(s: &mut String, v: &Vec<char>, lo: usize, hi: usize)
    requires
        lo <= hi <= v@.len(),
    ensures
        final(s)@ == old(s)@ + v@.subrange(lo as int, hi as int),
{
    let mut i: usize = lo;
    while i < hi
        invariant
            lo <= i <= hi <= v@.len(),
            s@ == old(s)@ + v@.subrange(lo as int, i as int),
        decreases hi - i,
    {
        push_char(s, v[i]);
        assert(v@.subrange(lo as int, i + 1) =~= v@.subrange(lo as int, i as int).push(v@[i as int]));
        i += 1;
    }
}

/// Whether `v[lo..hi]` ends in `.dcm`.
pub(crate) fn has_source_ext(v: &Vec<char>, lo: usize, hi: usize) -> (r: bool)
    requires
        lo <= hi <= v@.len(),
    ensures
        r == ends_with_source_ext(v@.subrange(lo as int, hi as int)),
{
    let ghost name = v@.subrange(lo as int, hi as int);
    if hi - lo < 4 {
        return false;
    }
    let r = v[hi - 4] == '.' && v[hi - 3] == 'd' && v[hi - 2] == 'c' && v[hi - 1] == 'm';
    assert(r == (name.subrange(name.len() - 4, name.len() as int) =~= source_ext()));
    r
}

/// Appends `.png` to `s`.
fn push_target_ext(s: &mut String)
    ensures
        final(s)@ == old(s)@ + target_ext(),
{
    push_char(s, '.');
    push_char(s, 'p');
    push_char(s, 'n');
    push_char(s, 'g');
    assert(final(s)@ =~= old(s)@ + target_ext());
}

/// The output file name for an input path: the lowercase hex SHA-256 of
/// the path's UTF-8 bytes, `_`, and the path's final component with its
/// `.dcm` extension replaced by `.png` (or `.png` appended when it has
/// none). A path without a final component uses `unknown`.
pub fn name_output(path: &str) -> (r: String)
    ensures
        r@ == output_name(path@),
        hex_of(sha256_of(encode_utf8(path@))).len() == 64,
{
    let digest = sha256_digest(path.as_bytes());
    proof {
        lemma_hex_shape(digest@);
    }
    let mut r = to_hex(digest.as_slice());
    push_char(&mut r, '_');
    let chars = to_chars(path);
    let (b, e) = segment_bounds(&chars);
    let ghost seg = chars@.subrange(b as int, e as int);
    let single_dot = e - b == 1 && chars[b] == '.';
    let double_dot = e - b == 2 && chars[b] == '.' && chars[b + 1] == '.';
    proof {
        if seg.len() == 1 {
            assert(seg[0] == chars@[b as int]);
        }
        if seg.len() == 2 {
            assert(seg[0] == chars@[b as int] && seg[1] == chars@[b + 1]);
        }
    }
    assert(single_dot == (seg =~= seq!['.']));
    assert(double_dot == (seg =~= seq!['.', '.']));
    if b == e || single_dot || double_dot {
        push_char(&mut r, 'u');
        push_char(&mut r, 'n');
        push_char(&mut r, 'k');
        push_char(&mut r, 'n');
        push_char(&mut r, 'o');
        push_char(&mut r, 'w');
        push_char(&mut r, 'n');
        push_target_ext(&mut r);
        assert(!ends_with_source_ext(unknown_name()));
    } else if has_source_ext(&chars, b, e) {
        push_range(&mut r, &chars, b, e - 4);
        push_target_ext(&mut r);
        assert(seg.subrange(0, seg.len() - 4) =~= chars@.subrange(b as int, e - 4));
    } else {
        push_range(&mut r, &chars, b, e);
        push_target_ext(&mut r);
    }
    assert(r@ =~= output_name(path@));
    r
}

proof fn lemma_hex_shape(d: Seq<u8>)
    ensures
        hex_of(d).len() == 2 * d.len(),
        forall|i: int| 0 <= i < hex_of(d).len() ==> #[trigger] hex_of(d)[i] != '_',
    decreases d.len(),
{
    if d.len() > 0 {
        lemma_hex_shape(d.drop_last());
    }
}

proof fn lemma_hex_digit_injective(x: u8, y: u8)
    requires
        x < 16,
        y < 16,
        hex_digit(x) == hex_digit(y),
    ensures
        x == y,
{
    assert(hex_digit(x) as u32 == hex_digit(y) as u32);
}

proof fn lemma_hex_injective(x: Seq<u8>, y: Seq<u8>)
    requires
        hex_of(x) == hex_of(y),
    ensures
        x == y,
    decreases x.len(),
{
    lemma_hex_shape(x);
    lemma_hex_shape(y);
    if x.len() > 0 {
        let hx = hex_of(x);
        let n = hx.len();
        assert(hx[n - 2] == hex_digit(x.last() / 16));
        assert(hex_of(y)[n - 2] == hex_digit(y.last() / 16));
        assert(hx[n - 1] == hex_digit(x.last() % 16));
        assert(hex_of(y)[n - 1] == hex_digit(y.last() % 16));
        lemma_hex_digit_injective(x.last() / 16, y.last() / 16);
        lemma_hex_digit_injective(x.last() % 16, y.last() % 16);
        assert(hex_of(x.drop_last()) =~= hx.subrange(0, n - 2));
        assert(hex_of(y.drop_last()) =~= hex_of(y).subrange(0, n - 2));
        lemma_hex_injective(x.drop_last(), y.drop_last());
        assert(x =~= x.drop_last().push(x.last()));
        assert(y =~= y.drop_last().push(y.last()));
    } else {
        assert(x =~= y);
    }
}

/// The output name of a path depends on the path alone: equal paths get
/// equal names.
pub proof fn lemma_name_stable(a: Seq<char>, b: Seq<char>)
    requires
        a == b,
    ensures
        output_name(a) == output_name(b),
{
}

/// Two distinct paths share an output name only if SHA-256 maps their
/// distinct UTF-8 encodings to the same digest: as long as the digest has
/// no collision, distinct paths get distinct names.
pub proof fn lemma_names_collide_only_on_digest_collision(a: Seq<char>, b: Seq<char>)
    requires
        a != b,
    ensures
        encode_utf8(a) != encode_utf8(b),
        output_name(a) == output_name(b) ==> sha256_of(encode_utf8(a)) == sha256_of(
            encode_utf8(b),
        ),
{
    broadcast use vstd::utf8::encode_utf8_decode_utf8;

    assert(decode_utf8(encode_utf8(a)) == a);
    assert(decode_utf8(encode_utf8(b)) == b);
    if output_name(a) == output_name(b) {
        let da = sha256_of(encode_utf8(a));
        let db = sha256_of(encode_utf8(b));
        let ha = hex_of(da);
        let hb = hex_of(db);
        let o = output_name(a);
        lemma_hex_shape(da);
        lemma_hex_shape(db);
        assert(o == ha + seq!['_'] + png_name(base_of(a)));
        assert(o == hb + seq!['_'] + png_name(base_of(b)));
        if ha.len() < hb.len() {
            assert(o[ha.len() as int] == '_');
            assert(o[ha.len() as int] == hb[ha.len() as int]);
        } else if hb.len() < ha.len() {
            assert(o[hb.len() as int] == '_');
            assert(o[hb.len() as int] == ha[hb.len() as int]);
        }
        assert(ha =~= o.subrange(0, ha.len() as int));
        assert(hb =~= o.subrange(0, hb.len() as int));
        lemma_hex_injective(da, db);
    }
}

} // verus!
