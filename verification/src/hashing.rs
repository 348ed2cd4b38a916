//! Content hashing of JSON values: a canonical, prefix-free rendering of the
//! value is digested with SHA-256 and the digest is rendered in hexadecimal.
//! Equal values always hash alike, so redelivered records keep their hash.

use vstd::prelude::*;
use vstd::string::StringExecFns;
use crate::json::{JsonSpec, JsonValue, json_view, json_view_arr, json_view_obj,
    lemma_view_arr, lemma_view_obj};
use crate::text::{spec_dec, u64_to_dec};
use sha2::Digest;

verus! {

broadcast use {vstd::std_specs::vec::group_vec_axioms, vstd::seq::group_seq_axioms};

/// The canonical rendering of a JSON value. Every piece is introduced by a
/// tag character and every string carries its length, so distinct values
/// render distinctly; all that the hash relies on, though, is that equal
/// values render equally.
pub open spec fn spec_canon(v: JsonSpec) -> Seq<char>
    decreases v,
{
    match v {
        JsonSpec::Null => seq!['n'],
        JsonSpec::Bool(b) => if b { seq!['t'] } else { seq!['f'] },
        JsonSpec::Int(n) => seq!['i'] + spec_canon_int(n) + seq![';'],
        JsonSpec::Str(s) => seq!['s'] + spec_dec(s.len()) + seq![':'] + s,
        JsonSpec::Arr(elems) => seq!['['] + spec_canon_arr(elems) + seq![']'],
        JsonSpec::Obj(ms) => seq!['{'] + spec_canon_obj(ms) + seq!['}'],
    }
}

pub open spec fn spec_canon_int(n: int) -> Seq<char> {
    if n < 0 {
        seq!['-'] + spec_dec((-n) as nat)
    } else {
        spec_dec(n as nat)
    }
}

pub open spec fn spec_canon_arr(s: Seq<JsonSpec>) -> Seq<char>
    decreases s,
{
    if s.len() == 0 {
        Seq::empty()
    } else {
        spec_canon_arr(s.drop_last()) + spec_canon(s.last()) + seq![',']
    }
}

pub open spec fn spec_canon_obj(s: Seq<(Seq<char>, JsonSpec)>) -> Seq<char>
    decreases s,
{
    if s.len() == 0 {
        Seq::empty()
    } else {
        spec_canon_obj(s.drop_last()) + seq!['k'] + spec_dec(s.last().0.len())
            + seq![':'] + s.last().0 + seq!['='] + spec_canon(s.last().1) + seq![',']
    }
}

/// Renders a JSON value canonically.
pub fn canon_string(v: &JsonValue) -> (r: String)
    ensures
        r@ == spec_canon(v@),
    decreases v,
{
    match v {
        JsonValue::Null => {
            let r = "n".to_owned();
            proof {
                reveal_strlit("n");
                assert(r@ =~= spec_canon(v@));
            }
            r
        },
        JsonValue::Bool(b) => {
            let r = if *b { "t".to_owned() } else { "f".to_owned() };
            proof {
                reveal_strlit("t");
                reveal_strlit("f");
                assert(r@ =~= spec_canon(v@));
            }
            r
        },
        JsonValue::Int(n) => {
            let digits = canon_int(*n);
            let r = "i".to_owned().concat(digits.as_str()).concat(";");
            proof {
                reveal_strlit("i");
                reveal_strlit(";");
                assert(r@ =~= spec_canon(v@));
            }
            r
        },
        JsonValue::Str(s) => {
            let r = canon_str_part(s.as_str());
            proof {
                assert(r@ =~= spec_canon(v@));
            }
            r
        },
        JsonValue::Arr(a) => {
            let inner = canon_elems(a);
            let r = "[".to_owned().concat(inner.as_str()).concat("]");
            proof {
                reveal_strlit("[");
                reveal_strlit("]");
                assert(r@ =~= spec_canon(v@));
            }
            r
        },
        JsonValue::Obj(o) => {
            let inner = canon_members(o);
            let r = "{".to_owned().concat(inner.as_str()).concat("}");
            proof {
                reveal_strlit("{");
                reveal_strlit("}");
                assert(r@ =~= spec_canon(v@));
            }
            r
        },
    }
}

fn canon_int(n: i64) -> (r: String)
    ensures
        r@ == spec_canon_int(n as int),
{
    if n < 0 {
        let mag: u64 = if n == i64::MIN {
            9223372036854775808u64
        } else {
            (-n) as u64
        };
        let r = "-".to_owned().concat(u64_to_dec(mag).as_str());
        proof {
            reveal_strlit("-");
            assert(r@ =~= spec_canon_int(n as int));
        }
        r
    } else {
        u64_to_dec(n as u64)
    }
}

fn canon_str_part(s: &str) -> (r: String)
    ensures
        r@ == seq!['s'] + spec_dec(s@.len()) + seq![':'] + s@,
{
    let n = vstd::string::StrSliceExecFns::unicode_len(s);
    let r = "s".to_owned().concat(u64_to_dec(n as u64).as_str()).concat(":").concat(s);
    proof {
        reveal_strlit("s");
        reveal_strlit(":");
        assert(r@ =~= seq!['s'] + spec_dec(s@.len()) + seq![':'] + s@);
    }
    r
}

fn canon_elems(a: &Vec<JsonValue>) -> (r: String)
    ensures
        r@ == spec_canon_arr(json_view_arr(a@)),
    decreases a,
{
    let ghost views = json_view_arr(a@);
    proof {
        lemma_view_arr(a@);
    }
    let mut out = String::new();
    let n = a.len();
    for i in 0..n
        invariant
            n == a.len(),
            views == json_view_arr(a@),
            views.len() == a@.len(),
            forall|j: int| 0 <= j < a@.len() ==> views[j] == json_view(a@[j]),
            out@ == spec_canon_arr(views.subrange(0, i as int)),
    {
        proof {
            assert(decreases_to!(*a => a@));
            assert(decreases_to!(a@ => a@[i as int]));
        }
        let piece = canon_string(&a[i]);
        out.append(piece.as_str());
        out.append(",");
        proof {
            reveal_strlit(",");
            let pre = views.subrange(0, i as int);
            let cur = views.subrange(0, i + 1);
            assert(cur.drop_last() =~= pre);
            assert(cur.last() == views[i as int]);
            assert(out@ =~= spec_canon_arr(cur));
        }
    }
    proof {
        assert(views.subrange(0, views.len() as int) =~= views);
    }
    out
}

fn canon_members(o: &Vec<(String, JsonValue)>) -> (r: String)
    ensures
        r@ == spec_canon_obj(json_view_obj(o@)),
    decreases o,
{
    let ghost views = json_view_obj(o@);
    proof {
        lemma_view_obj(o@);
    }
    let mut out = String::new();
    let n = o.len();
    for i in 0..n
        invariant
            n == o.len(),
            views == json_view_obj(o@),
            views.len() == o@.len(),
            forall|j: int| 0 <= j < o@.len() ==> views[j] == (o@[j].0@, json_view(o@[j].1)),
            out@ == spec_canon_obj(views.subrange(0, i as int)),
    {
        proof {
            assert(decreases_to!(*o => o@));
            assert(decreases_to!(o@ => o@[i as int]));
            assert(decreases_to!(o@[i as int] => o@[i as int].1));
        }
        let m = &o[i];
        let key_part = canon_str_part(m.0.as_str());
        let val_part = canon_string(&m.1);
        out.append("k");
        let kn = vstd::string::StrSliceExecFns::unicode_len(m.0.as_str());
        out.append(u64_to_dec(kn as u64).as_str());
        out.append(":");
        out.append(m.0.as_str());
        out.append("=");
        out.append(val_part.as_str());
        out.append(",");
        proof {
            reveal_strlit("k");
            reveal_strlit(":");
            reveal_strlit("=");
            reveal_strlit(",");
            let pre = views.subrange(0, i as int);
            let cur = views.subrange(0, i + 1);
            assert(cur.drop_last() =~= pre);
            assert(cur.last() == views[i as int]);
            assert(out@ =~= spec_canon_obj(cur));
        }
    }
    proof {
        assert(views.subrange(0, views.len() as int) =~= views);
    }
    out
}

/// The SHA-256 digest of the UTF-8 bytes of a character sequence: named, not
/// written out; the adapter relies only on its determinism.
pub uninterp spec fn sha256_of(s: Seq<char>) -> Seq<u8>;

/// Relies on sha2's `Sha256`: a 32-byte digest that depends on the input
/// characters alone.
#[verifier::external_body]
fn sha256_digest(s: &str) -> (r: Vec<u8>)
    ensures
        r@ == sha256_of(s@),
        r@.len() == 32,
{
    sha2::Sha256::digest(s.as_bytes()).to_vec()
}

/// The character for one hexadecimal digit.
pub open spec fn spec_hex_digit(d: nat) -> char {
    if d < 10 {
        crate::text::spec_dec_digit(d)
    } else if d == 10 { 'a' }
    else if d == 11 { 'b' }
    else if d == 12 { 'c' }
    else if d == 13 { 'd' }
    else if d == 14 { 'e' }
    else { 'f' }
}

/// The lowercase hexadecimal rendering of a byte sequence, two characters a
/// byte.
pub open spec fn spec_hex(s: Seq<u8>) -> Seq<char>
    decreases s,
{
    if s.len() == 0 {
        Seq::empty()
    } else {
        spec_hex(s.drop_last()) + seq![
            spec_hex_digit((s.last() / 16) as nat),
            spec_hex_digit((s.last() % 16) as nat),
        ]
    }
}

fn hex_digit(d: u8) -> (r: &'static str)
    requires
        d < 16,
    ensures
        r@ == seq![spec_hex_digit(d as nat)],
{
    let r: &'static str = match d {
        0 => "0",
        1 => "1",
        2 => "2",
        3 => "3",
        4 => "4",
        5 => "5",
        6 => "6",
        7 => "7",
        8 => "8",
        9 => "9",
        10 => "a",
        11 => "b",
        12 => "c",
        13 => "d",
        14 => "e",
        _ => "f",
    };
    proof {
        reveal_strlit("0");
        reveal_strlit("1");
        reveal_strlit("2");
        reveal_strlit("3");
        reveal_strlit("4");
        reveal_strlit("5");
        reveal_strlit("6");
        reveal_strlit("7");
        reveal_strlit("8");
        reveal_strlit("9");
        reveal_strlit("a");
        reveal_strlit("b");
        reveal_strlit("c");
        reveal_strlit("d");
        reveal_strlit("e");
        reveal_strlit("f");
        assert(r@ =~= seq![spec_hex_digit(d as nat)]);
    }
    r
}

/// Renders bytes in lowercase hexadecimal.
pub fn to_hex(bytes: &Vec<u8>) -> (r: String)
    ensures
        r@ == spec_hex(bytes@),
{
    let mut out = String::new();
    let n = bytes.len();
    for i in 0..n
        invariant
            n == bytes.len(),
            out@ == spec_hex(bytes@.subrange(0, i as int)),
    {
        let b = bytes[i];
        out.append(hex_digit(b / 16));
        out.append(hex_digit(b % 16));
        proof {
            let pre = bytes@.subrange(0, i as int);
            let cur = bytes@.subrange(0, i + 1);
            assert(cur.drop_last() =~= pre);
            assert(cur.last() == bytes@[i as int]);
            assert(out@ =~= spec_hex(cur));
        }
    }
    proof {
        assert(bytes@.subrange(0, bytes@.len() as int) =~= bytes@);
    }
    out
}

/// The content hash of a JSON value: the hexadecimal SHA-256 digest of its
/// canonical rendering.
pub open spec fn spec_hash_json(v: JsonSpec) -> Seq<char> {
    spec_hex(sha256_of(spec_canon(v)))
}

/// Hashes a JSON value by content.
pub fn hash_json(value: &JsonValue) -> (r: String)
    ensures
        r@ == spec_hash_json(value@),
{
    let canonical = canon_string(value);
    let digest = sha256_digest(canonical.as_str());
    to_hex(&digest)
}

} // verus!
