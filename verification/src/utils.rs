use vstd::prelude::*;
use vstd::bytes::*;
use vstd::endian::{endianness, Endian};

verus! {

/// Bytes in a machine word.
pub open spec fn word_bytes() -> nat {
    (usize::BITS / 8) as nat
}

/// Little-endian bytes of a machine word.
pub open spec fn word_le_bytes(v: usize) -> Seq<u8> {
    if usize::BITS == 64 {
        spec_u64_to_le_bytes(v as u64)
    } else {
        spec_u32_to_le_bytes(v as u32)
    }
}

/// Machine word read from little-endian bytes.
pub open spec fn word_from_le_bytes(s: Seq<u8>) -> usize {
    if usize::BITS == 64 {
        spec_u64_from_le_bytes(s) as usize
    } else {
        spec_u32_from_le_bytes(s) as usize
    }
}

/// The memory representation of `v` in the byte order of the machine.
pub open spec fn ne_bytes(v: usize) -> Seq<u8> {
    match endianness() {
        Endian::Little => word_le_bytes(v),
        Endian::Big => word_le_bytes(v).reverse(),
    }
}

/// The machine word whose memory representation, in the byte order of the
/// machine, is `s`.
pub open spec fn from_ne_bytes(s: Seq<u8>) -> usize {
    match endianness() {
        Endian::Little => word_from_le_bytes(s),
        Endian::Big => word_from_le_bytes(s.reverse()),
    }
}

proof fn lemma_reverse_reverse(s: Seq<u8>)
    ensures
        s.reverse().reverse() == s,
        s.reverse().len() == s.len(),
{
    assert(s.reverse().reverse() =~= s);
}

/// Encoding a word and reading it back gives the word; the encoding has
/// exactly one byte per eighth of the word width.
pub proof fn lemma_ne_bytes_roundtrip(v: usize)
    ensures
        ne_bytes(v).len() == word_bytes(),
        from_ne_bytes(ne_bytes(v)) == v,
{
    lemma_auto_spec_u64_to_from_le_bytes();
    lemma_auto_spec_u32_to_from_le_bytes();
    assert(usize::BITS == 32 || usize::BITS == 64);
    lemma_reverse_reverse(word_le_bytes(v));
    if usize::BITS == 64 {
        assert(spec_u64_to_le_bytes(v as u64).len() == 8);
        assert(spec_u64_from_le_bytes(spec_u64_to_le_bytes(v as u64)) == v as u64);
    } else {
        assert(spec_u32_to_le_bytes(v as u32).len() == 4);
        assert(spec_u32_from_le_bytes(spec_u32_to_le_bytes(v as u32)) == v as u32);
    }
}

/// Reading a word from bytes and encoding it again gives the same bytes.
pub proof fn lemma_from_ne_bytes_roundtrip(s: Seq<u8>)
    requires
        s.len() == word_bytes(),
    ensures
        ne_bytes(from_ne_bytes(s)) == s,
{
    lemma_auto_spec_u64_to_from_le_bytes();
    lemma_auto_spec_u32_to_from_le_bytes();
    assert(usize::BITS == 32 || usize::BITS == 64);
    lemma_reverse_reverse(s);
    match endianness() {
        Endian::Little => {
            if usize::BITS == 64 {
                assert(spec_u64_to_le_bytes(spec_u64_from_le_bytes(s)) == s);
            } else {
                assert(spec_u32_to_le_bytes(spec_u32_from_le_bytes(s)) == s);
            }
        },
        Endian::Big => {
            let r = s.reverse();
            if usize::BITS == 64 {
                assert(spec_u64_to_le_bytes(spec_u64_from_le_bytes(r)) == r);
            } else {
                assert(spec_u32_to_le_bytes(spec_u32_from_le_bytes(r)) == r);
            }
        },
    }
}

/// `usize::to_ne_bytes`: the memory representation of the word in the
/// byte order of the machine (little-endian bytes on little-endian
/// targets, reversed on big-endian ones), as the std documentation shows.
#[verifier::external_body]
pub(crate) fn usize_to_ne_bytes(v: usize) -> (res: Vec<u8>)
    ensures
        res@ == ne_bytes(v),
{
    v.to_ne_bytes().to_vec()
}

/// `usize::from_ne_bytes`: the word whose memory representation in the
/// byte order of the machine is the given array of `size_of::<usize>()`
/// bytes.
#[verifier::external_body]
pub(crate) fn usize_from_ne_bytes(bytes: &[u8]) -> (res: usize)
    requires
        bytes@.len() == word_bytes(),
    ensures
        res == from_ne_bytes(bytes@),
{
    usize::from_ne_bytes(bytes.try_into().unwrap())
}


/// The decimal digit character for `d < 10`.
pub open spec fn digit_char(d: nat) -> char {
    if d == 0 {
        '0'
    } else if d == 1 {
        '1'
    } else if d == 2 {
        '2'
    } else if d == 3 {
        '3'
    } else if d == 4 {
        '4'
    } else if d == 5 {
        '5'
    } else if d == 6 {
        '6'
    } else if d == 7 {
        '7'
    } else if d == 8 {
        '8'
    } else {
        '9'
    }
}

/// Decimal representation of a natural number, most significant digit first.
pub open spec fn decimal(n: nat) -> Seq<char>
    decreases n,
{
    if n < 10 {
        seq![digit_char(n)]
    } else {
        decimal(n / 10).push(digit_char(n % 10))
    }
}

fn digit_str(d: usize) -> (res: &'static str)
    requires
        d < 10,
    ensures
        res@ == seq![digit_char(d as nat)],
{
    proof {
        reveal_strlit("0");
        reveal_strlit("1");
        reveal_strlit("2");
        reveal_strlit("3");
        reveal_strlit("4");
        reveal_strlit("5");
        reveal_strlit("6");
        reveal_strlit("7");
        reveal_strlit("8");
        reveal_strlit("9");
    }
    match d {
        0 => "0",
        1 => "1",
        2 => "2",
        3 => "3",
        4 => "4",
        5 => "5",
        6 => "6",
        7 => "7",
        8 => "8",
        _ => "9",
    }
}

/// Append the decimal representation of `n` to `buf`.
pub fn push_decimal(buf: &mut String, n: usize)
    ensures
        final(buf)@ == old(buf)@ + decimal(n as nat),
    decreases n,
{
    if n >= 10 {
        push_decimal(buf, n / 10);
    }
    let d = digit_str(n % 10);
    buf.append(d);
    assert(final(buf)@ =~= old(buf)@ + decimal(n as nat));
}


/// `s` left-padded with `fill` to at least `width` characters.
pub open spec fn pad_left(s: Seq<char>, width: nat, fill: char) -> Seq<char> {
    if s.len() >= width {
        s
    } else {
        Seq::new((width - s.len()) as nat, |_i: int| fill) + s
    }
}

proof fn lemma_decimal_len(n: nat)
    ensures
        decimal(n).len() >= 1,
        decimal(n).len() <= n + 1,
    decreases n,
{
    if n >= 10 {
        lemma_decimal_len(n / 10);
    }
}

/// Number of decimal digits of `n`.
pub fn decimal_len(n: usize) -> (res: usize)
    ensures
        res == decimal(n as nat).len(),
    decreases n,
{
    proof {
        lemma_decimal_len(n as nat);
    }
    if n < 10 {
        1
    } else {
        proof {
            lemma_decimal_len((n / 10) as nat);
        }
        decimal_len(n / 10) + 1
    }
}

/// Append `n` in decimal, left-padded with the one-character string `fill`
/// to `width` characters.
pub fn push_decimal_padded(buf: &mut String, n: usize, width: usize, fill: &str)
    requires
        fill@.len() == 1,
    ensures
        final(buf)@ == old(buf)@ + pad_left(decimal(n as nat), width as nat, fill@[0]),
{
    let len = decimal_len(n);
    let ghost start = buf@;
    if len < width {
        let count = width - len;
        let mut i: usize = 0;
        while i < count
            invariant
                i <= count,
                fill@.len() == 1,
                buf@ == start + Seq::new(i as nat, |_j: int| fill@[0]),
            decreases count - i,
        {
            buf.append(fill);
            i = i + 1;
            assert(buf@ =~= start + Seq::new(i as nat, |_j: int| fill@[0]));
        }
    }
    push_decimal(buf, n);
    assert(final(buf)@ =~= start + pad_left(decimal(n as nat), width as nat, fill@[0]));
}

/// Append `n` in decimal.
pub fn push_decimal_u64(buf: &mut String, n: u64)
    ensures
        final(buf)@ == old(buf)@ + decimal(n as nat),
    decreases n,
{
    if n >= 10 {
        push_decimal_u64(buf, n / 10);
    }
    let d = digit_str((n % 10) as usize);
    buf.append(d);
    assert(final(buf)@ =~= old(buf)@ + decimal(n as nat));
}

/// Decimal representation of a signed integer.
pub open spec fn int_text(v: i64) -> Seq<char> {
    if v < 0 {
        seq!['-'] + decimal((-v) as nat)
    } else {
        decimal(v as nat)
    }
}

/// Append `v` in decimal, with a minus sign when negative.
pub fn push_int(buf: &mut String, v: i64)
    ensures
        final(buf)@ == old(buf)@ + int_text(v),
{
    if v < 0 {
        proof {
            reveal_strlit("-");
        }
        buf.append("-");
        let m: u64 = if v == i64::MIN {
            0x8000_0000_0000_0000
        } else {
            (-v) as u64
        };
        push_decimal_u64(buf, m);
        assert(final(buf)@ =~= old(buf)@ + int_text(v));
    } else {
        push_decimal_u64(buf, v as u64);
    }
}

/// Append one character.
///
/// Calls `String::push`, which std documents as appending the character to
/// the end of the string; that is what the contract states.
#[verifier::external_body]
pub(crate) fn push_char(buf: &mut String, c: char)
    ensures
        final(buf)@ == old(buf)@.push(c),
{
    buf.push(c);
}

/// `s` with `pad` after each newline.
pub open spec fn pad_lines(s: Seq<char>, pad: Seq<char>) -> Seq<char>
    decreases s.len(),
{
    if s.len() == 0 {
        Seq::empty()
    } else {
        pad_lines(s.drop_last(), pad) + seq![s.last()] + (if s.last() == '\n' {
            pad
        } else {
            Seq::empty()
        })
    }
}

/// `str` with `pad` before it and after each of its newlines.
pub fn add_pad(str: &str, pad: &str) -> (res: String)
    ensures
        res@ == pad@ + pad_lines(str@, pad@),
{
    let mut buffer = String::new();
    buffer.append(pad);
    let ghost s = str@;
    for c in it: str.chars()
        invariant
            it.seq() == s,
            s == str@,
            buffer@ == pad@ + pad_lines(s.subrange(0, it.index() as int), pad@),
    {
        let ghost before = buffer@;
        assert(s.subrange(0, it.index() + 1).drop_last() =~= s.subrange(0, it.index() as int));
        push_char(&mut buffer, c);
        if c == '\n' {
            buffer.append(pad);
        }
        assert(buffer@ =~= pad@ + pad_lines(s.subrange(0, it.index() + 1), pad@));
    }
    assert(s.subrange(0, s.len() as int) =~= s);
    buffer
}

} // verus!
