//! The wire framing rules: the handshake bytes a server emits first, the
//! framing of a directed message, and the classification of a received line.
//!
//! All lines are terminated by a single `\n` (byte 10).  A framed message is
//! either a line beginning with the three-byte prefix `>>>` or `<<<`, whose
//! remainder is the payload, or a bare continuation line, whose payload is
//! the whole line and whose direction is inherited from the last seen prefix.

use vstd::prelude::*;

use crate::Direction;
use crate::Error;

verus! {

/// The bytes of the greeting token `RFLOW`.
pub open spec fn greeting_bytes() -> Seq<u8> {
    seq![82u8, 70u8, 76u8, 79u8, 87u8]
}

/// The bytes of the end-of-headers line `---`.
pub open spec fn headers_end_bytes() -> Seq<u8> {
    seq![45u8, 45u8, 45u8]
}

/// The exact byte sequence a server emits on a new connection before any
/// other bytes: `RFLOW/1\n---\n`.
pub open spec fn handshake_bytes() -> Seq<u8> {
    greeting_bytes() + seq![47u8, 49u8, 10u8] + headers_end_bytes() + seq![10u8]
}

/// Build the handshake emitted by the server as the first bytes on a new
/// connection: the greeting line `RFLOW/1`, then the end-of-headers line
/// `---`, each terminated by `\n`.
pub fn handshake_message() -> (r: Vec<u8>)
    ensures
        r@ == handshake_bytes(),
{
    let mut r: Vec<u8> = Vec::new();
    r.push(82);
    r.push(70);
    r.push(76);
    r.push(79);
    r.push(87);
    r.push(47);
    r.push(49);
    r.push(10);
    r.push(45);
    r.push(45);
    r.push(45);
    r.push(10);
    proof {
        assert(r@ =~= handshake_bytes());
    }
    r
}

/// The framed form of one directed message: the direction prefix, the
/// payload, and the terminating newline.
pub open spec fn framed_bytes(dir: Direction, payload: Seq<u8>) -> Seq<u8> {
    dir.spec_prefix() + payload + seq![10u8]
}

/// Frame one directed message for the wire.
pub fn frame_message(dir: Direction, payload: &Vec<u8>) -> (r: Vec<u8>)
    ensures
        r@ == framed_bytes(dir, payload@),
{
    let prefix = dir.as_bytes();
    let mut r: Vec<u8> = Vec::new();
    r.push(prefix[0]);
    r.push(prefix[1]);
    r.push(prefix[2]);
    let mut i: usize = 0;
    while i < payload.len()
        invariant
            i <= payload.len(),
            r@ == dir.spec_prefix() + payload@.subrange(0, i as int),
        decreases payload.len() - i,
    {
        r.push(payload[i]);
        proof {
            assert(r@ =~= dir.spec_prefix() + payload@.subrange(0, i + 1));
        }
        i += 1;
    }
    r.push(10);
    proof {
        assert(payload@.subrange(0, payload@.len() as int) =~= payload@);
        assert(r@ =~= framed_bytes(dir, payload@));
    }
    r
}

/// How one received line (without its terminating newline) is read:
/// `Some((dir, payload))` if it begins with a direction prefix, `None` if it
/// is a bare continuation line.  `>>>` is tried before `<<<`, as the reader
/// does.
pub open spec fn classified(line: Seq<u8>) -> Option<(Direction, Seq<u8>)> {
    if line.len() >= 3 && line.subrange(0, 3) == Direction::ClientToServer.spec_prefix() {
        Some((Direction::ClientToServer, line.skip(3)))
    } else if line.len() >= 3 && line.subrange(0, 3) == Direction::ServerToClient.spec_prefix() {
        Some((Direction::ServerToClient, line.skip(3)))
    } else {
        None
    }
}

/// A received line, classified.
pub enum LineClass {
    /// A line introduced by a direction prefix; holds the payload after it.
    Directed(Direction, Vec<u8>),
    /// A bare continuation line with no recognized prefix.
    Bare,
}

/// Classify one received line (without its terminating newline).
pub fn classify_line(line: &Vec<u8>) -> (r: LineClass)
    ensures
        match r {
            LineClass::Directed(d, p) => classified(line@) == Some((d, p@)),
            LineClass::Bare => classified(line@) is None,
        },
{
    if line.len() >= 3 {
        if line[0] == 62 && line[1] == 62 && line[2] == 62 {
            proof {
                assert(line@.subrange(0, 3) =~= Direction::ClientToServer.spec_prefix());
            }
            let p = tail_from(line, 3);
            return LineClass::Directed(Direction::ClientToServer, p);
        }
        if line[0] == 60 && line[1] == 60 && line[2] == 60 {
            proof {
                assert(line@.subrange(0, 3) =~= Direction::ServerToClient.spec_prefix());
                assert(line@.subrange(0, 3) != Direction::ClientToServer.spec_prefix());
            }
            let p = tail_from(line, 3);
            return LineClass::Directed(Direction::ServerToClient, p);
        }
        proof {
            assert(line@.subrange(0, 3) != Direction::ClientToServer.spec_prefix());
            assert(line@.subrange(0, 3) != Direction::ServerToClient.spec_prefix());
        }
    }
    LineClass::Bare
}

/// Copy the bytes of `line` from position `from` to the end.
fn tail_from(line: &Vec<u8>, from: usize) -> (r: Vec<u8>)
    requires
        from <= line@.len(),
    ensures
        r@ == line@.skip(from as int),
{
    let mut r: Vec<u8> = Vec::new();
    let mut i: usize = from;
    while i < line.len()
        invariant
            from <= i <= line@.len(),
            r@ == line@.subrange(from as int, i as int),
        decreases line@.len() - i,
    {
        r.push(line[i]);
        proof {
            assert(r@ =~= line@.subrange(from as int, i + 1));
        }
        i += 1;
    }
    proof {
        assert(r@ =~= line@.skip(from as int));
    }
    r
}

/// True of the ASCII whitespace bytes that trimming removes: space and the
/// control characters tab through carriage return.
pub open spec fn is_space(b: u8) -> bool {
    b == 32 || (9 <= b && b <= 13)
}

/// `s` with leading whitespace removed.
pub open spec fn trim_front(s: Seq<u8>) -> Seq<u8>
    decreases s.len(),
{
    if s.len() > 0 && is_space(s[0]) {
        trim_front(s.skip(1))
    } else {
        s
    }
}

/// `s` with trailing whitespace removed.
pub open spec fn trim_back(s: Seq<u8>) -> Seq<u8>
    decreases s.len(),
{
    if s.len() > 0 && is_space(s.last()) {
        trim_back(s.drop_last())
    } else {
        s
    }
}

/// `s` with leading and trailing whitespace removed.
pub open spec fn trimmed(s: Seq<u8>) -> Seq<u8> {
    trim_back(trim_front(s))
}

/// True of the ASCII decimal digits `0` through `9`.
pub open spec fn is_digit(b: u8) -> bool {
    48 <= b && b <= 57
}

/// True if every byte of `s` is a decimal digit.
pub open spec fn all_digits(s: Seq<u8>) -> bool {
    forall|i: int| 0 <= i < s.len() ==> is_digit(#[trigger] s[i])
}

/// The value of `s` read as a decimal numeral.
pub open spec fn dec_value(s: Seq<u8>) -> int
    decreases s.len(),
{
    if s.len() == 0 {
        0
    } else {
        dec_value(s.drop_last()) * 10 + (s.last() - 48)
    }
}

/// What parsing a byte string as a `u8` yields: an optional `+` sign, then
/// one or more decimal digits whose value is at most 255; anything else is
/// rejected.
pub open spec fn parse_u8(s: Seq<u8>) -> Option<u8> {
    let digits = if s.len() > 0 && s[0] == 43 {
        s.skip(1)
    } else {
        s
    };
    if digits.len() > 0 && all_digits(digits) && dec_value(digits) <= 255 {
        Some(dec_value(digits) as u8)
    } else {
        None
    }
}

/// The first position at or after `from` holding `/` (byte 47), or the
/// length of `s` if there is none.
pub open spec fn field_end(s: Seq<u8>, from: int) -> int
    decreases s.len() - from,
{
    if from >= s.len() {
        s.len() as int
    } else if s[from] == 47 {
        from
    } else {
        field_end(s, from + 1)
    }
}

/// The version carried by a greeting line: the field before the first `/`
/// must be `RFLOW`, and the field after it (trimmed of whitespace) must
/// parse as a `u8`; anything after a second `/` is ignored.
pub open spec fn greeting_version(line: Seq<u8>) -> Option<u8> {
    let e1 = field_end(line, 0);
    if line.subrange(0, e1) == greeting_bytes() && e1 < line.len() {
        parse_u8(trimmed(line.subrange(e1 + 1, field_end(line, e1 + 1))))
    } else {
        None
    }
}

/// `field_end` is the first slash position: if no byte of `[from, k)` is a
/// slash and `k` is the length or a slash position, `field_end` is `k`.
proof fn lemma_field_end_at(s: Seq<u8>, from: int, k: int)
    requires
        0 <= from <= k <= s.len(),
        forall|j: int| from <= j < k ==> s[j] != 47,
        k == s.len() || s[k] == 47,
    ensures
        field_end(s, from) == k,
    decreases k - from,
{
    if from < k {
        lemma_field_end_at(s, from + 1, k);
    }
}

/// `trim_front` removes exactly the leading run of whitespace: if the bytes
/// of `[0, k)` are whitespace and position `k` (if any) is not, the result
/// is `s` from `k` on.
proof fn lemma_trim_front_at(s: Seq<u8>, k: int)
    requires
        0 <= k <= s.len(),
        forall|i: int| 0 <= i < k ==> is_space(#[trigger] s[i]),
        k == s.len() || !is_space(s[k]),
    ensures
        trim_front(s) == s.skip(k),
    decreases k,
{
    if k == 0 {
        assert(s.skip(0) =~= s);
    } else {
        lemma_trim_front_at(s.skip(1), k - 1);
        assert(s.skip(1).skip(k - 1) =~= s.skip(k));
    }
}

/// `trim_back` removes exactly the trailing run of whitespace: if the bytes
/// of `[k, len)` are whitespace and position `k - 1` (if any) is not, the
/// result is the first `k` bytes of `s`.
proof fn lemma_trim_back_at(s: Seq<u8>, k: int)
    requires
        0 <= k <= s.len(),
        forall|i: int| k <= i < s.len() ==> is_space(#[trigger] s[i]),
        k == 0 || !is_space(s[k - 1]),
    ensures
        trim_back(s) == s.take(k),
    decreases s.len() - k,
{
    if k == s.len() {
        assert(s.take(k) =~= s);
    } else {
        lemma_trim_back_at(s.drop_last(), k);
        assert(s.drop_last().take(k) =~= s.take(k));
    }
}

/// A numeral of digits has a non-negative value.
proof fn lemma_dec_value_nonneg(s: Seq<u8>)
    requires
        all_digits(s),
    ensures
        dec_value(s) >= 0,
    decreases s.len(),
{
    if s.len() > 0 {
        assert(all_digits(s.drop_last()));
        lemma_dec_value_nonneg(s.drop_last());
    }
}

/// Extending a numeral of digits never decreases its value.
proof fn lemma_dec_value_prefix_le(s: Seq<u8>, m: int)
    requires
        all_digits(s),
        0 <= m <= s.len(),
    ensures
        dec_value(s.take(m)) <= dec_value(s),
    decreases s.len() - m,
{
    if m == s.len() {
        assert(s.take(m) =~= s);
    } else {
        assert(s.take(m + 1).drop_last() =~= s.take(m));
        assert(all_digits(s.take(m)));
        lemma_dec_value_nonneg(s.take(m));
        assert(dec_value(s.take(m + 1)) == dec_value(s.take(m)) * 10 + (s[m] - 48));
        lemma_dec_value_prefix_le(s, m + 1);
    }
}

/// Whether `b` is one of the whitespace bytes that trimming removes.
fn is_space_byte(b: u8) -> (r: bool)
    ensures
        r == is_space(b),
{
    b == 32 || (9 <= b && b <= 13)
}

/// Parse the greeting line of the handshake (without its terminating
/// newline).  The field before the first `/` must read `RFLOW` and the
/// field after it must parse as a `u8` version number; on anything else the
/// greeting is invalid data.  The version itself is not judged here.
#[verifier::loop_isolation(false)]
#[verifier::rlimit(60)]
pub fn parse_greeting(line: &Vec<u8>) -> (r: Result<u8, Error>)
    ensures
        match r {
            Ok(v) => greeting_version(line@) == Some(v),
            Err(e) => greeting_version(line@) is None && e == Error::InvalidData,
        },
{
    let n = line.len();
    let mut i: usize = 0;
    while i < n && line[i as usize] != 47
        invariant
            0 <= i <= n == line@.len(),
            forall|k: int| 0 <= k < i ==> line@[k] != 47,
        decreases n - i,
    {
        i += 1;
    }
    proof {
        lemma_field_end_at(line@, 0, i as int);
    }
    let ghost e1 = i as int;
    if i != 5 {
        proof {
            assert(line@.subrange(0, e1).len() == e1);
            assert(line@.subrange(0, e1) != greeting_bytes());
        }
        return Err(Error::InvalidData);
    }
    let ok = line[0] == 82 && line[1] == 70 && line[2] == 76 && line[3] == 79 && line[4] == 87;
    proof {
        assert(line@.subrange(0, 5)[0] == line@[0]);
        assert(line@.subrange(0, 5)[1] == line@[1]);
        assert(line@.subrange(0, 5)[2] == line@[2]);
        assert(line@.subrange(0, 5)[3] == line@[3]);
        assert(line@.subrange(0, 5)[4] == line@[4]);
        if ok {
            assert(line@.subrange(0, 5) =~= greeting_bytes());
        }
    }
    if !ok {
        return Err(Error::InvalidData);
    }
    if i >= n {
        return Err(Error::InvalidData);
    }
    // the version field runs from after the first slash to the next slash
    let mut j: usize = i + 1;
    while j < n && line[j as usize] != 47
        invariant
            i + 1 <= j <= n == line@.len(),
            forall|k: int| i + 1 <= k < j ==> line@[k] != 47,
        decreases n - j,
    {
        j += 1;
    }
    proof {
        lemma_field_end_at(line@, e1 + 1, j as int);
    }
    let ghost field = line@.subrange(e1 + 1, j as int);
    // trim whitespace off both ends of the field
    let mut lo: usize = i + 1;
    while lo < j && is_space_byte(line[lo])
        invariant
            i + 1 <= lo <= j <= line@.len(),
            forall|k: int| i + 1 <= k < lo ==> is_space(#[trigger] line@[k]),
        decreases j - lo,
    {
        lo += 1;
    }
    let mut hi: usize = j;
    while hi > lo && is_space_byte(line[hi - 1])
        invariant
            lo <= hi <= j <= line@.len(),
            forall|k: int| hi <= k < j ==> is_space(#[trigger] line@[k]),
        decreases hi,
    {
        hi -= 1;
    }
    proof {
        lemma_trim_front_at(field, lo - (e1 + 1));
        assert(field.skip(lo - (e1 + 1)) =~= line@.subrange(lo as int, j as int));
        lemma_trim_back_at(line@.subrange(lo as int, j as int), hi - lo);
        assert(line@.subrange(lo as int, j as int).take(hi - lo) =~= line@.subrange(
            lo as int,
            hi as int,
        ));
        assert(trimmed(field) == line@.subrange(lo as int, hi as int));
    }
    let ghost t = line@.subrange(lo as int, hi as int);
    // an optional sign, then the digits
    let mut d: usize = lo;
    if d < hi && line[d] == 43 {
        d += 1;
        proof {
            assert(t.skip(1) =~= line@.subrange(d as int, hi as int));
        }
    }
    let ghost digits = line@.subrange(d as int, hi as int);
    proof {
        if t.len() > 0 && t[0] == 43 {
            assert(digits == t.skip(1));
        } else {
            assert(digits =~= t);
        }
    }
    if d == hi {
        proof {
            assert(digits.len() == 0);
        }
        return Err(Error::InvalidData);
    }
    let mut v: u32 = 0;
    let mut k: usize = d;
    while k < hi
        invariant
            d <= k <= hi <= line@.len(),
            digits == line@.subrange(d as int, hi as int),
            all_digits(line@.subrange(d as int, k as int)),
            v == dec_value(line@.subrange(d as int, k as int)),
            v <= 255,
        decreases hi - k,
    {
        let b = line[k];
        let ghost pre = line@.subrange(d as int, k as int);
        let ghost cur = line@.subrange(d as int, k + 1);
        proof {
            assert(cur.drop_last() =~= pre);
            assert(cur.last() == line@[k as int]);
        }
        if !(48 <= b && b <= 57) {
            proof {
                assert(digits[k - d] == line@[k as int]);
                assert(!all_digits(digits));
            }
            return Err(Error::InvalidData);
        }
        let nv = v * 10 + (b - 48) as u32;
        proof {
            assert(all_digits(cur));
            assert(dec_value(cur) == dec_value(pre) * 10 + (line@[k as int] - 48));
        }
        if nv > 255 {
            proof {
                if all_digits(digits) {
                    assert(cur =~= digits.take(k + 1 - d));
                    lemma_dec_value_prefix_le(digits, k + 1 - d);
                    assert(dec_value(digits) > 255);
                }
            }
            return Err(Error::InvalidData);
        }
        v = nv;
        k += 1;
    }
    proof {
        assert(line@.subrange(d as int, k as int) =~= digits);
        assert(parse_u8(t) == Some(v as u8));
    }
    Ok(v as u8)
}

/// Framing round trip: for any payload without an interior newline, framing
/// a message in direction `dir` produces exactly one line, and classifying
/// that line (with its newline stripped) yields the same direction and the
/// same payload.
pub proof fn lemma_frame_round_trip(dir: Direction, payload: Seq<u8>)
    requires
        forall|i: int| 0 <= i < payload.len() ==> payload[i] != 10u8,
    ensures
        framed_bytes(dir, payload).last() == 10u8,
        forall|i: int|
            0 <= i < framed_bytes(dir, payload).len() - 1 ==> framed_bytes(dir, payload)[i]
                != 10u8,
        classified(framed_bytes(dir, payload).drop_last()) == Some((dir, payload)),
{
    let framed = framed_bytes(dir, payload);
    let line = framed.drop_last();
    assert(line =~= dir.spec_prefix() + payload);
    assert(line.subrange(0, 3) =~= dir.spec_prefix());
    assert(line.skip(3) =~= payload);
    match dir {
        Direction::ClientToServer => {
            assert(classified(line) == Some((dir, payload)));
        },
        Direction::ServerToClient => {
            assert(line.subrange(0, 3) != Direction::ClientToServer.spec_prefix());
            assert(classified(line) == Some((dir, payload)));
        },
    }
}

} // verus!

