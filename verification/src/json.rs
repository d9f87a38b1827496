use vstd::prelude::*;

verus! {

broadcast use vstd::std_specs::vec::group_vec_axioms, vstd::seq::group_seq_axioms;

/// The mathematical value of a JSON document: what a `Json` tree stands for
/// in contracts. Numbers are unbounded integers here; object member order is
/// part of the value.
#[verifier::ext_equal]
pub ghost enum JsonV {
    Null,
    Bool(bool),
    Int(int),
    Num(Seq<char>),
    Str(Seq<char>),
    Arr(Seq<JsonV>),
    Obj(Seq<(Seq<char>, JsonV)>),
}

/// A JSON document as the library holds it: a nested map/array/scalar tree.
/// Numbers are 64-bit integers; object members keep the order in which they
/// were read or built.
#[derive(Debug, PartialEq, Eq)]
pub enum Json {
    Null,
    Bool(bool),
    Int(i64),
    /// A number beyond the 64-bit integers, held as its wire text and
    /// written back out as it stands. The text is meant to be a JSON
    /// number; `num_text_wf` says which characters one is made of.
    Num(String),
    Str(String),
    Arr(Vec<Json>),
    Obj(Vec<(String, Json)>),
}

pub open spec fn json_view(j: Json) -> JsonV
    decreases j,
{
    match j {
        Json::Null => JsonV::Null,
        Json::Bool(b) => JsonV::Bool(b),
        Json::Int(i) => JsonV::Int(i as int),
        Json::Num(s) => JsonV::Num(s@),
        Json::Str(s) => JsonV::Str(s@),
        Json::Arr(v) => JsonV::Arr(
            Seq::new(
                v@.len(),
                |i: int|
                    if 0 <= i < v@.len() {
                        json_view(v@[i])
                    } else {
                        JsonV::Null
                    },
            ),
        ),
        Json::Obj(v) => JsonV::Obj(
            Seq::new(
                v@.len(),
                |i: int|
                    if 0 <= i < v@.len() {
                        (v@[i].0@, json_view(v@[i].1))
                    } else {
                        (Seq::empty(), JsonV::Null)
                    },
            ),
        ),
    }
}

impl View for Json {
    type V = JsonV;

    open spec fn view(&self) -> JsonV {
        json_view(*self)
    }
}

/// ASCII hex digit (upper case) for a value below 16.
pub open spec fn hex_digit(n: u8) -> u8 {
    if n < 10 {
        (0x30 + n) as u8
    } else {
        (0x41 + (n - 10)) as u8
    }
}

/// How one byte of a string's UTF-8 encoding appears inside a JSON string
/// literal: quote, backslash and control bytes are escaped, everything else
/// (including UTF-8 continuation bytes, which are all at least 0x80) passes
/// through unchanged.
pub open spec fn esc_byte(b: u8) -> Seq<u8> {
    if b == 0x22 {  // "
        seq![0x5Cu8, 0x22u8]
    } else if b == 0x5C {  // backslash
        seq![0x5Cu8, 0x5Cu8]
    } else if b == 0x0A {  // newline
        seq![0x5Cu8, 0x6Eu8]
    } else if b == 0x0D {  // carriage return
        seq![0x5Cu8, 0x72u8]
    } else if b == 0x09 {  // tab
        seq![0x5Cu8, 0x74u8]
    } else if b < 0x20 {
        seq![0x5Cu8, 0x75u8, 0x30u8, 0x30u8, hex_digit(b / 16), hex_digit(b % 16)]
    } else {
        seq![b]
    }
}

pub open spec fn esc_bytes(s: Seq<u8>) -> Seq<u8>
    decreases s.len(),
{
    if s.len() == 0 {
        Seq::empty()
    } else {
        esc_byte(s[0]) + esc_bytes(s.drop_first())
    }
}

/// A string as it stands on the wire: quoted and escaped UTF-8.
pub open spec fn str_bytes(s: Seq<char>) -> Seq<u8> {
    seq![0x22u8] + esc_bytes(vstd::utf8::encode_utf8(s)) + seq![0x22u8]
}

/// Decimal digits of a natural number, most significant first.
pub open spec fn dec_digits(n: nat) -> Seq<u8>
    decreases n,
{
    if n < 10 {
        seq![(0x30 + n) as u8]
    } else {
        dec_digits(n / 10) + seq![(0x30 + (n % 10)) as u8]
    }
}

/// Decimal form of an integer, with a leading minus sign when negative.
pub open spec fn int_bytes(i: int) -> Seq<u8> {
    if i < 0 {
        seq![0x2Du8] + dec_digits((-i) as nat)
    } else {
        dec_digits(i as nat)
    }
}

/// The exact byte sequence a JSON value is serialized to: no whitespace,
/// members and elements in order, strings escaped as `esc_byte` says.
pub open spec fn ser(v: JsonV) -> Seq<u8>
    decreases v, 0int, 0int,
{
    match v {
        JsonV::Null => seq![0x6Eu8, 0x75u8, 0x6Cu8, 0x6Cu8],  // null
        JsonV::Bool(b) => if b {
            seq![0x74u8, 0x72u8, 0x75u8, 0x65u8]  // true
        } else {
            seq![0x66u8, 0x61u8, 0x6Cu8, 0x73u8, 0x65u8]  // false
        },
        JsonV::Int(i) => int_bytes(i),
        JsonV::Num(t) => vstd::utf8::encode_utf8(t),
        JsonV::Str(s) => str_bytes(s),
        JsonV::Arr(elems) => seq![0x5Bu8] + ser_elems(elems, 0) + seq![0x5Du8],
        JsonV::Obj(membs) => seq![0x7Bu8] + ser_membs(membs, 0) + seq![0x7Du8],
    }
}

/// Array elements from index `from` on, comma-separated (a comma before every
/// element but the first of the whole array).
pub open spec fn ser_elems(elems: Seq<JsonV>, from: int) -> Seq<u8>
    decreases elems, 1int, elems.len() - from,
{
    if from < 0 || from >= elems.len() {
        Seq::empty()
    } else {
        (if from > 0 {
            seq![0x2Cu8]
        } else {
            Seq::<u8>::empty()
        }) + ser(elems[from]) + ser_elems(elems, from + 1)
    }
}

/// Object members from index `from` on: `"key":value`, comma-separated.
pub open spec fn ser_membs(membs: Seq<(Seq<char>, JsonV)>, from: int) -> Seq<u8>
    decreases membs, 1int, membs.len() - from,
{
    if from < 0 || from >= membs.len() {
        Seq::empty()
    } else {
        (if from > 0 {
            seq![0x2Cu8]
        } else {
            Seq::<u8>::empty()
        }) + str_bytes(membs[from].0) + seq![0x3Au8] + ser(membs[from].1) + ser_membs(
            membs,
            from + 1,
        )
    }
}

proof fn lemma_esc_bytes_snoc(s: Seq<u8>, b: u8)
    ensures
        esc_bytes(s.push(b)) == esc_bytes(s) + esc_byte(b),
    decreases s.len(),
{
    if s.len() == 0 {
        assert(s.push(b)[0] == b);
        assert(s.push(b).drop_first() =~= Seq::<u8>::empty());
        assert(esc_bytes(s.push(b)) =~= esc_byte(b) + esc_bytes(Seq::<u8>::empty()));
        assert(esc_byte(b) + Seq::<u8>::empty() =~= esc_byte(b));
        assert(esc_bytes(s) + esc_byte(b) =~= esc_byte(b));
    } else {
        assert(s.push(b).drop_first() =~= s.drop_first().push(b));
        lemma_esc_bytes_snoc(s.drop_first(), b);
        assert(esc_bytes(s.push(b)) =~= esc_bytes(s) + esc_byte(b));
    }
}

/// Writes the escaped form of `s`'s UTF-8 bytes, without the quotes.
#[verifier::rlimit(50)]
fn write_escaped(s: &str, out: &mut Vec<u8>)
    ensures
        final(out)@ == old(out)@ + esc_bytes(vstd::utf8::encode_utf8(s@)),
{
    let bs = s.as_bytes();
    let ghost base = out@;
    let mut i: usize = 0;
    proof {
        assert(bs@.take(0) =~= Seq::<u8>::empty());
    }
    while i < bs.len()
        invariant
            i <= bs.len(),
            bs@ == vstd::utf8::encode_utf8(s@),
            out@ == base + esc_bytes(bs@.take(i as int)),
        decreases bs.len() - i,
    {
        let b = bs[i];
        if b == 0x22 || b == 0x5C {
            out.push(0x5C);
            out.push(b);
        } else if b == 0x0A {
            out.push(0x5C);
            out.push(0x6E);
        } else if b == 0x0D {
            out.push(0x5C);
            out.push(0x72);
        } else if b == 0x09 {
            out.push(0x5C);
            out.push(0x74);
        } else if b < 0x20 {
            out.push(0x5C);
            out.push(0x75);
            out.push(0x30);
            out.push(0x30);
            let hi = b / 16;
            let lo = b % 16;
            out.push(if hi < 10 { 0x30 + hi } else { 0x41 + (hi - 10) });
            out.push(if lo < 10 { 0x30 + lo } else { 0x41 + (lo - 10) });
        } else {
            out.push(b);
        }
        proof {
            assert(bs@.take(i + 1) =~= bs@.take(i as int).push(bs@[i as int]));
            lemma_esc_bytes_snoc(bs@.take(i as int), bs@[i as int]);
        }
        i = i + 1;
    }
    proof {
        assert(bs@.take(bs@.len() as int) =~= bs@);
    }
}

/// Writes the decimal digits of `n`, most significant first.
fn write_u64(n: u64, out: &mut Vec<u8>)
    ensures
        final(out)@ == old(out)@ + dec_digits(n as nat),
{
    let ghost base = out@;
    let mut tmp: Vec<u8> = Vec::new();
    let mut m: u64 = n;
    let d0: u8 = (m % 10) as u8;
    tmp.push(0x30 + d0);
    m = m / 10;
    proof {
        assert(seq![(0x30 + (n as nat) % 10) as u8].reverse() =~= seq![
            (0x30 + (n as nat) % 10) as u8,
        ]);
        if m == 0 {
            assert(dec_digits(n as nat) =~= tmp@.reverse());
        } else {
            assert(dec_digits(n as nat) =~= dec_digits(m as nat) + tmp@.reverse());
        }
    }
    while m > 0
        invariant
            m > 0 ==> dec_digits(n as nat) == dec_digits(m as nat) + tmp@.reverse(),
            m == 0 ==> dec_digits(n as nat) == tmp@.reverse(),
            tmp@.len() >= 1,
        decreases m,
    {
        let d: u8 = (m % 10) as u8;
        let ghost old_tmp = tmp@;
        let ghost old_m = m as nat;
        tmp.push(0x30 + d);
        m = m / 10;
        proof {
            assert(old_tmp.push((0x30 + old_m % 10) as u8).reverse() =~= seq![
                (0x30 + old_m % 10) as u8,
            ] + old_tmp.reverse());
            if m > 0 {
                assert(dec_digits(old_m) =~= dec_digits(old_m / 10) + seq![
                    (0x30 + old_m % 10) as u8,
                ]);
                assert(dec_digits(n as nat) =~= dec_digits(m as nat) + tmp@.reverse());
            } else {
                assert(dec_digits(old_m) =~= seq![(0x30 + old_m % 10) as u8]);
                assert(dec_digits(n as nat) =~= tmp@.reverse());
            }
        }
    }
    let mut i: usize = 0;
    proof {
        assert(out@ =~= base + tmp@.reverse().take(0));
    }
    while i < tmp.len()
        invariant
            i <= tmp@.len(),
            dec_digits(n as nat) == tmp@.reverse(),
            out@ == base + tmp@.reverse().take(i as int),
        decreases tmp@.len() - i,
    {
        let b = tmp[tmp.len() - 1 - i];
        out.push(b);
        proof {
            assert(tmp@.reverse().take(i + 1) =~= tmp@.reverse().take(i as int).push(
                tmp@[tmp@.len() - 1 - i],
            ));
        }
        i = i + 1;
    }
    proof {
        assert(tmp@.reverse().take(tmp@.len() as int) =~= tmp@.reverse());
    }
}

/// Writes the decimal form of `i`, with a minus sign when negative.
fn write_i64(i: i64, out: &mut Vec<u8>)
    ensures
        final(out)@ == old(out)@ + int_bytes(i as int),
{
    if i >= 0 {
        write_u64(i as u64, out);
    } else {
        out.push(0x2D);
        // Magnitude without overflowing on the smallest value.
        let m: u64 = ((-(i + 1)) as u64) + 1;
        let ghost base = old(out)@;
        write_u64(m, out);
        proof {
            assert(m as nat == (-(i as int)) as nat);
            assert(out@ =~= base + int_bytes(i as int));
        }
    }
}

/// Serializes one JSON value onto the end of `out`, exactly as `ser` says.
pub fn write_json(j: &Json, out: &mut Vec<u8>)
    ensures
        final(out)@ == old(out)@ + ser(j@),
    decreases *j,
{
    match j {
        Json::Null => {
            out.push(0x6E);
            out.push(0x75);
            out.push(0x6C);
            out.push(0x6C);
            proof {
                assert(out@ =~= old(out)@ + ser(j@));
            }
        },
        Json::Bool(b) => {
            if *b {
                out.push(0x74);
                out.push(0x72);
                out.push(0x75);
                out.push(0x65);
            } else {
                out.push(0x66);
                out.push(0x61);
                out.push(0x6C);
                out.push(0x73);
                out.push(0x65);
            }
            proof {
                assert(out@ =~= old(out)@ + ser(j@));
            }
        },
        Json::Int(i) => {
            write_i64(*i, out);
        },
        Json::Num(s) => {
            let bs = s.as_str().as_bytes();
            let ghost base = out@;
            let mut i: usize = 0;
            proof {
                assert(bs@.take(0) =~= Seq::<u8>::empty());
                assert(out@ =~= base + bs@.take(0));
            }
            while i < bs.len()
                invariant
                    i <= bs.len(),
                    bs@ == vstd::utf8::encode_utf8(s@),
                    out@ == base + bs@.take(i as int),
                decreases bs.len() - i,
            {
                out.push(bs[i]);
                proof {
                    assert(bs@.take(i + 1) =~= bs@.take(i as int).push(bs@[i as int]));
                }
                i = i + 1;
            }
            proof {
                assert(bs@.take(bs@.len() as int) =~= bs@);
                assert(out@ =~= old(out)@ + ser(j@));
            }
        },
        Json::Str(s) => {
            out.push(0x22);
            write_escaped(s.as_str(), out);
            out.push(0x22);
            proof {
                assert(out@ =~= old(out)@ + str_bytes(s@));
            }
        },
        Json::Arr(v) => {
            let ghost elems = j@->Arr_0;
            out.push(0x5B);
            let ghost base = out@;
            let mut i: usize = 0;
            while i < v.len()
                invariant
                    i <= v@.len(),
                    *j == Json::Arr(*v),
                    elems == j@->Arr_0,
                    elems.len() == v@.len(),
                    forall|k: int| 0 <= k < v@.len() ==> elems[k] == json_view(v@[k]),
                    base + ser_elems(elems, 0) =~= out@ + ser_elems(elems, i as int),
                decreases v@.len() - i,
            {
                if i > 0 {
                    out.push(0x2C);
                }
                let ghost mid = out@;
                proof {
                    assert(decreases_to!(*j => (*j)->Arr_0));
                    assert((*j)->Arr_0 == *v);
                    assert(decreases_to!(*v => v@));
                    assert(decreases_to!(v@ => v@[i as int]));
                }
                write_json(&v[i], out);
                proof {
                    assert(out@ =~= mid + ser(elems[i as int]));
                    assert(base + ser_elems(elems, 0) =~= out@ + ser_elems(elems, i + 1));
                }
                i = i + 1;
            }
            out.push(0x5D);
            proof {
                assert(ser_elems(elems, v@.len() as int) =~= Seq::<u8>::empty());
                assert(out@ =~= old(out)@ + ser(j@));
            }
        },
        Json::Obj(v) => {
            let ghost membs = j@->Obj_0;
            out.push(0x7B);
            let ghost base = out@;
            let mut i: usize = 0;
            while i < v.len()
                invariant
                    i <= v@.len(),
                    *j == Json::Obj(*v),
                    membs == j@->Obj_0,
                    membs.len() == v@.len(),
                    forall|k: int|
                        0 <= k < v@.len() ==> membs[k] == (v@[k].0@, json_view(v@[k].1)),
                    base + ser_membs(membs, 0) =~= out@ + ser_membs(membs, i as int),
                decreases v@.len() - i,
            {
                if i > 0 {
                    out.push(0x2C);
                }
                out.push(0x22);
                let entry = &v[i];
                write_escaped(entry.0.as_str(), out);
                out.push(0x22);
                out.push(0x3A);
                let ghost mid = out@;
                proof {
                    assert(decreases_to!(*j => (*j)->Obj_0));
                    assert((*j)->Obj_0 == *v);
                    assert(decreases_to!(*v => v@));
                    assert(decreases_to!(v@ => v@[i as int]));
                    assert(decreases_to!(v@[i as int] => v@[i as int].1));
                }
                write_json(&entry.1, out);
                proof {
                    assert(out@ =~= mid + ser(membs[i as int].1));
                    assert(base + ser_membs(membs, 0) =~= out@ + ser_membs(membs, i + 1));
                }
                i = i + 1;
            }
            out.push(0x7D);
            proof {
                assert(ser_membs(membs, v@.len() as int) =~= Seq::<u8>::empty());
                assert(out@ =~= old(out)@ + ser(j@));
            }
        },
    }
}

/// Serializes one JSON value to a fresh byte string.
pub fn to_bytes(j: &Json) -> (r: Vec<u8>)
    ensures
        r@ == ser(j@),
{
    let mut out: Vec<u8> = Vec::new();
    write_json(j, &mut out);
    out
}



/// A character a JSON number's text is made of: digits, sign, decimal
/// point and exponent marker.
pub open spec fn num_char(c: char) -> bool {
    ('0' <= c <= '9') || c == '-' || c == '+' || c == '.' || c == 'e' || c == 'E'
}

/// A text made only of number characters: what `Json::Num` is meant to
/// hold.
pub open spec fn num_text_wf(t: Seq<char>) -> bool {
    forall|i: int| 0 <= i < t.len() ==> num_char(#[trigger] t[i])
}

/// Every number text inside a value is made of number characters.
pub open spec fn nums_wf(v: JsonV) -> bool
    decreases v,
{
    match v {
        JsonV::Num(t) => num_text_wf(t),
        JsonV::Arr(elems) => forall|i: int|
            0 <= i < elems.len() ==> nums_wf(#[trigger] elems[i]),
        JsonV::Obj(membs) => forall|i: int|
            0 <= i < membs.len() ==> nums_wf(#[trigger] membs[i].1),
        _ => true,
    }
}

/// No newline byte anywhere in a byte string.
pub open spec fn newline_free(s: Seq<u8>) -> bool {
    forall|i: int| 0 <= i < s.len() ==> s[i] != 0x0A
}

proof fn lemma_newline_free_concat(a: Seq<u8>, b: Seq<u8>)
    requires
        newline_free(a),
        newline_free(b),
    ensures
        newline_free(a + b),
{
    assert forall|i: int| 0 <= i < (a + b).len() implies (a + b)[i] != 0x0A by {
        if i < a.len() {
            assert((a + b)[i] == a[i]);
        } else {
            assert((a + b)[i] == b[i - a.len()]);
        }
    }
}

proof fn lemma_esc_bytes_newline_free(s: Seq<u8>)
    ensures
        newline_free(esc_bytes(s)),
    decreases s.len(),
{
    if s.len() > 0 {
        lemma_esc_bytes_newline_free(s.drop_first());
        lemma_newline_free_concat(esc_byte(s[0]), esc_bytes(s.drop_first()));
    }
}

proof fn lemma_dec_digits_newline_free(n: nat)
    ensures
        newline_free(dec_digits(n)),
    decreases n,
{
    if n >= 10 {
        lemma_dec_digits_newline_free(n / 10);
        lemma_newline_free_concat(dec_digits(n / 10), seq![(0x30 + (n % 10)) as u8]);
    }
}

proof fn lemma_str_bytes_newline_free(s: Seq<char>)
    ensures
        newline_free(str_bytes(s)),
{
    lemma_esc_bytes_newline_free(vstd::utf8::encode_utf8(s));
    lemma_newline_free_concat(seq![0x22u8], esc_bytes(vstd::utf8::encode_utf8(s)));
    lemma_newline_free_concat(
        seq![0x22u8] + esc_bytes(vstd::utf8::encode_utf8(s)),
        seq![0x22u8],
    );
}

proof fn lemma_num_text_newline_free(t: Seq<char>)
    requires
        num_text_wf(t),
    ensures
        newline_free(vstd::utf8::encode_utf8(t)),
{
    assert(vstd::utf8::is_ascii_chars(t)) by {
        assert forall|i: int| 0 <= i < t.len() implies '\0' <= #[trigger] t[i] <= '\u{7f}' by {
            assert(num_char(t[i]));
        }
    }
    vstd::utf8::is_ascii_chars_encode_utf8(t);
    assert forall|i: int|
        0 <= i < vstd::utf8::encode_utf8(t).len() implies vstd::utf8::encode_utf8(t)[i]
        != 0x0A by {
        assert(num_char(t[i]));
        assert(vstd::utf8::encode_utf8(t)[i] == t[i] as u8);
    }
}

proof fn lemma_int_bytes_newline_free(i: int)
    ensures
        newline_free(int_bytes(i)),
{
    if i < 0 {
        lemma_dec_digits_newline_free((-i) as nat);
        lemma_newline_free_concat(seq![0x2Du8], dec_digits((-i) as nat));
    } else {
        lemma_dec_digits_newline_free(i as nat);
    }
}

/// The serializer never emits a newline byte, for every value whose
/// number texts are made of number characters: newlines inside strings
/// are escaped, and no other token holds one. A serialized value is
/// therefore always one line of text, and a frame ends at its one
/// terminator.
pub proof fn lemma_ser_newline_free(v: JsonV)
    requires
        nums_wf(v),
    ensures
        newline_free(ser(v)),
    decreases v, 0int, 0int,
{
    match v {
        JsonV::Null => {
        },
        JsonV::Bool(_) => {
        },
        JsonV::Int(i) => {
            lemma_int_bytes_newline_free(i);
        },
        JsonV::Num(t) => {
            lemma_num_text_newline_free(t);
        },
        JsonV::Str(s) => {
            lemma_str_bytes_newline_free(s);
        },
        JsonV::Arr(elems) => {
            lemma_ser_elems_newline_free(elems, 0);
            lemma_newline_free_concat(seq![0x5Bu8], ser_elems(elems, 0));
            lemma_newline_free_concat(seq![0x5Bu8] + ser_elems(elems, 0), seq![0x5Du8]);
        },
        JsonV::Obj(membs) => {
            lemma_ser_membs_newline_free(membs, 0);
            lemma_newline_free_concat(seq![0x7Bu8], ser_membs(membs, 0));
            lemma_newline_free_concat(seq![0x7Bu8] + ser_membs(membs, 0), seq![0x7Du8]);
        },
    }
}

proof fn lemma_ser_elems_newline_free(elems: Seq<JsonV>, from: int)
    requires
        forall|i: int| 0 <= i < elems.len() ==> nums_wf(#[trigger] elems[i]),
    ensures
        newline_free(ser_elems(elems, from)),
    decreases elems, 1int, elems.len() - from,
{
    if 0 <= from < elems.len() {
        let comma = (if from > 0 {
            seq![0x2Cu8]
        } else {
            Seq::<u8>::empty()
        });
        lemma_ser_newline_free(elems[from]);
        lemma_ser_elems_newline_free(elems, from + 1);
        lemma_newline_free_concat(comma, ser(elems[from]));
        lemma_newline_free_concat(comma + ser(elems[from]), ser_elems(elems, from + 1));
    }
}

proof fn lemma_ser_membs_newline_free(membs: Seq<(Seq<char>, JsonV)>, from: int)
    requires
        forall|i: int| 0 <= i < membs.len() ==> nums_wf(#[trigger] membs[i].1),
    ensures
        newline_free(ser_membs(membs, from)),
    decreases membs, 1int, membs.len() - from,
{
    if 0 <= from < membs.len() {
        let comma = (if from > 0 {
            seq![0x2Cu8]
        } else {
            Seq::<u8>::empty()
        });
        lemma_str_bytes_newline_free(membs[from].0);
        lemma_ser_newline_free(membs[from].1);
        lemma_ser_membs_newline_free(membs, from + 1);
        lemma_newline_free_concat(comma, str_bytes(membs[from].0));
        lemma_newline_free_concat(comma + str_bytes(membs[from].0), seq![0x3Au8]);
        lemma_newline_free_concat(
            comma + str_bytes(membs[from].0) + seq![0x3Au8],
            ser(membs[from].1),
        );
        lemma_newline_free_concat(
            comma + str_bytes(membs[from].0) + seq![0x3Au8] + ser(membs[from].1),
            ser_membs(membs, from + 1),
        );
    }
}

} // verus!
