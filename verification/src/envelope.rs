//! The signed envelope: a claim's bytes and the signatures that go with it.
//!
//! An envelope is the payload, a line feed, and one line per signature. A
//! signature line is the lower-case hexadecimal form of the key index, two
//! bytes with the higher first, followed by the signature's bytes, and ends
//! with a line feed. The payload holds no line feed.

use vstd::prelude::*;
use crate::signature::{signature_views, Signature, SignatureView};

verus! {

/// The byte that ends the payload and every signature line.
pub const LINE_FEED: u8 = 10;

/// The hexadecimal digit of a value below 16.
pub open spec fn hex_digit(value: int) -> u8 {
    if value < 10 {
        (48 + value) as u8
    } else {
        (87 + value) as u8
    }
}

/// The value of a hexadecimal digit, where `digit` is one.
pub open spec fn hex_value(digit: u8) -> Option<int> {
    if 48 <= digit <= 57 {
        Some(digit - 48)
    } else if 97 <= digit <= 102 {
        Some(digit - 87)
    } else {
        None
    }
}

/// The hexadecimal form of `bytes`: two digits per byte, the higher half
/// first.
pub open spec fn hex_encode(bytes: Seq<u8>) -> Seq<u8> {
    Seq::new(
        2 * bytes.len(),
        |i: int|
            if i % 2 == 0 {
                hex_digit(bytes[i / 2] as int / 16)
            } else {
                hex_digit(bytes[i / 2] as int % 16)
            },
    )
}

/// Whether `text` is the hexadecimal form of some bytes.
pub open spec fn is_hex(text: Seq<u8>) -> bool {
    &&& text.len() % 2 == 0
    &&& forall|i: int| 0 <= i < text.len() ==> hex_value(#[trigger] text[i]) is Some
}

/// The bytes that `text` is the hexadecimal form of.
pub open spec fn hex_decode(text: Seq<u8>) -> Option<Seq<u8>> {
    if is_hex(text) {
        Some(
            Seq::new(
                text.len() / 2,
                |i: int| (hex_value(text[2 * i])->0 * 16 + hex_value(text[2 * i + 1])->0) as u8,
            ),
        )
    } else {
        None
    }
}

/// Decoding undoes encoding.
pub proof fn lemma_hex_round_trip(bytes: Seq<u8>)
    ensures
        hex_decode(hex_encode(bytes)) == Some(bytes),
        forall|i: int| 0 <= i < hex_encode(bytes).len() ==> hex_encode(bytes)[i] != LINE_FEED,
{
    let text = hex_encode(bytes);
    assert forall|i: int| 0 <= i < text.len() implies hex_value(#[trigger] text[i]) is Some
        && text[i] != LINE_FEED by {
        let byte = bytes[i / 2] as int;
        assert(0 <= byte / 16 < 16);
        assert(0 <= byte % 16 < 16);
    }
    assert(is_hex(text));
    assert forall|i: int| 0 <= i < bytes.len() implies (hex_value(text[2 * i])->0 * 16 + hex_value(
        text[2 * i + 1],
    )->0) as u8 == bytes[i] by {
        let byte = bytes[i] as int;
        assert((2 * i) / 2 == i && (2 * i) % 2 == 0);
        assert((2 * i + 1) / 2 == i && (2 * i + 1) % 2 == 1);
        assert(text[2 * i] == hex_digit(byte / 16));
        assert(text[2 * i + 1] == hex_digit(byte % 16));
        assert(0 <= byte / 16 < 16);
        assert(0 <= byte % 16 < 16);
        assert(hex_value(hex_digit(byte / 16)) == Some(byte / 16));
        assert(hex_value(hex_digit(byte % 16)) == Some(byte % 16));
        assert((byte / 16) * 16 + byte % 16 == byte);
    }
    assert(hex_decode(text)->0 =~= bytes);
}

/// The digit of a value below 16.
fn digit_of(value: u8) -> (digit: u8)
    requires
        value < 16,
    ensures
        digit == hex_digit(value as int),
{
    if value < 10 {
        48 + value
    } else {
        87 + value
    }
}

/// The value of `digit`, where it is a hexadecimal digit.
fn value_of(digit: u8) -> (value: Option<u8>)
    ensures
        match value {
            Some(v) => hex_value(digit) == Some(v as int) && v < 16,
            None => hex_value(digit) is None,
        },
{
    if 48 <= digit && digit <= 57 {
        Some(digit - 48)
    } else if 97 <= digit && digit <= 102 {
        Some(digit - 87)
    } else {
        None
    }
}

/// Appends the hexadecimal form of `bytes` to `out`.
pub fn encode_hex(bytes: &[u8], out: &mut Vec<u8>)
    ensures
        final(out)@ == old(out)@ + hex_encode(bytes@),
{
    let ghost start = out@;
    let mut i: usize = 0;
    assert(start + hex_encode(bytes@.take(0)) =~= start);
    while i < bytes.len()
        invariant
            i <= bytes.len(),
            out@ == start + hex_encode(bytes@.take(i as int)),
        decreases bytes.len() - i,
    {
        let byte = bytes[i];
        let high = digit_of(byte / 16);
        let low = digit_of(byte % 16);
        proof {
            let before = hex_encode(bytes@.take(i as int));
            let after = hex_encode(bytes@.take(i + 1));
            assert(after.len() == before.len() + 2);
            assert forall|k: int| 0 <= k < after.len() implies after[k] == (before + seq![
                high,
                low,
            ])[k] by {
                if k < before.len() {
                    assert(bytes@.take(i + 1)[k / 2] == bytes@.take(i as int)[k / 2]);
                } else {
                    assert(k / 2 == i);
                    assert(bytes@.take(i + 1)[k / 2] == byte);
                }
            }
            assert(after =~= before + seq![high, low]);
            assert(start + before + seq![high, low] =~= (start + before).push(high).push(low));
        }
        out.push(high);
        out.push(low);
        i += 1;
    }
    assert(bytes@.take(bytes.len() as int) =~= bytes@);
}

/// Reads the hexadecimal form `text`.
pub fn decode_hex(text: &[u8]) -> (bytes: Option<Vec<u8>>)
    ensures
        match bytes {
            Some(b) => hex_decode(text@) == Some(b@),
            None => hex_decode(text@) is None,
        },
{
    if text.len() % 2 != 0 {
        return None;
    }
    let count = text.len() / 2;
    let mut bytes: Vec<u8> = Vec::new();
    let mut i: usize = 0;
    while i < count
        invariant
            i <= count,
            count * 2 == text.len(),
            bytes.len() == i,
            forall|k: int| 0 <= k < 2 * i ==> hex_value(#[trigger] text@[k]) is Some,
            forall|k: int|
                0 <= k < i ==> #[trigger] bytes@[k] == (hex_value(text@[2 * k])->0 * 16 + hex_value(
                    text@[2 * k + 1],
                )->0) as u8,
        decreases count - i,
    {
        let high = match value_of(text[2 * i]) {
            Some(v) => v,
            None => {
                return None;
            },
        };
        let low = match value_of(text[2 * i + 1]) {
            Some(v) => v,
            None => {
                return None;
            },
        };
        bytes.push(high * 16 + low);
        i += 1;
    }
    assert(is_hex(text@));
    assert(hex_decode(text@)->0 =~= bytes@);
    Some(bytes)
}

/// Whether the first line feed of `text` stands at `at`.
pub open spec fn line_ends_at(text: Seq<u8>, at: int) -> bool {
    &&& 0 <= at < text.len()
    &&& text[at] == LINE_FEED
    &&& forall|j: int| 0 <= j < at ==> text[j] != LINE_FEED
}

/// The number of bytes before the first line feed of `text`; the length of
/// `text` where it holds none.
pub open spec fn line_length(text: Seq<u8>) -> int {
    if exists|at: int| line_ends_at(text, at) {
        choose|at: int| line_ends_at(text, at)
    } else {
        text.len() as int
    }
}

/// The first line feed stands where it is found.
pub proof fn lemma_line_length(text: Seq<u8>, at: int)
    requires
        line_ends_at(text, at),
    ensures
        line_length(text) == at,
{
    let chosen = choose|p: int| line_ends_at(text, p);
    assert(line_ends_at(text, chosen));
    if chosen < at {
        assert(text[chosen] != LINE_FEED);
    } else if at < chosen {
        assert(text[at] != LINE_FEED);
    }
}

/// A text without a line feed is one unended line.
pub proof fn lemma_line_unended(text: Seq<u8>)
    requires
        forall|j: int| 0 <= j < text.len() ==> text[j] != LINE_FEED,
    ensures
        line_length(text) == text.len(),
{
    if exists|at: int| line_ends_at(text, at) {
        let at = choose|at: int| line_ends_at(text, at);
        assert(text[at] != LINE_FEED);
    }
}

/// The signature that a line, without its line feed, holds.
pub open spec fn parse_record(line: Seq<u8>) -> Option<SignatureView> {
    match hex_decode(line) {
        Some(raw) => if raw.len() >= 2 {
            Some(
                SignatureView {
                    index: (raw[0] as int * 256 + raw[1] as int) as u16,
                    bytes: raw.skip(2),
                },
            )
        } else {
            None
        },
        None => None,
    }
}

/// `first` in front of `rest`, where there is a rest.
pub open spec fn prepend(first: Seq<SignatureView>, rest: Option<Seq<SignatureView>>) -> Option<
    Seq<SignatureView>,
> {
    match rest {
        Some(more) => Some(first + more),
        None => None,
    }
}

/// The signatures that the lines of `text` hold. Every line has to end in a
/// line feed and hold a signature.
pub open spec fn parse_records(text: Seq<u8>) -> Option<Seq<SignatureView>>
    decreases text.len(),
{
    let length = line_length(text);
    if text.len() == 0 {
        Some(Seq::empty())
    } else if length < 0 || length >= text.len() {
        None
    } else {
        match parse_record(text.take(length)) {
            Some(signature) => prepend(seq![signature], parse_records(text.skip(length + 1))),
            None => None,
        }
    }
}

/// The payload and the signatures of an envelope.
pub open spec fn open_envelope(envelope: Seq<u8>) -> Option<(Seq<u8>, Seq<SignatureView>)> {
    let length = line_length(envelope);
    if length < 0 || length >= envelope.len() {
        None
    } else {
        match parse_records(envelope.skip(length + 1)) {
            Some(signatures) => Some((envelope.take(length), signatures)),
            None => None,
        }
    }
}

/// The bytes that a signature line holds in hexadecimal form: the key index
/// and the signature.
pub open spec fn record_bytes(signature: SignatureView) -> Seq<u8> {
    seq![(signature.index / 256) as u8, (signature.index % 256) as u8] + signature.bytes
}

/// The line that holds `signature`, line feed included.
pub open spec fn signature_record(signature: SignatureView) -> Seq<u8> {
    hex_encode(record_bytes(signature)) + seq![LINE_FEED]
}

/// The lines that hold `signatures`.
pub open spec fn signature_records(signatures: Seq<SignatureView>) -> Seq<u8>
    decreases signatures.len(),
{
    if signatures.len() == 0 {
        Seq::empty()
    } else {
        signature_record(signatures.first()) + signature_records(signatures.drop_first())
    }
}

/// The envelope of `payload` and `signatures`.
pub open spec fn seal_envelope(payload: Seq<u8>, signatures: Seq<SignatureView>) -> Seq<u8> {
    payload + seq![LINE_FEED] + signature_records(signatures)
}

/// Whether `payload` can stand in an envelope: it holds no line feed.
pub open spec fn single_line(payload: Seq<u8>) -> bool {
    forall|j: int| 0 <= j < payload.len() ==> payload[j] != LINE_FEED
}

/// The bytes of a signature line give the signature back.
proof fn lemma_record_bytes(signature: SignatureView)
    ensures
        record_bytes(signature).len() >= 2,
        (record_bytes(signature)[0] as int * 256 + record_bytes(signature)[1] as int) as u16
            == signature.index,
        record_bytes(signature).skip(2) == signature.bytes,
{
    let raw = record_bytes(signature);
    let index = signature.index as int;
    assert(raw[0] == (index / 256) as u8);
    assert(raw[1] == (index % 256) as u8);
    assert(0 <= index / 256 < 256);
    assert(0 <= index % 256 < 256);
    assert((index / 256) * 256 + index % 256 == index);
    assert(raw.skip(2) =~= signature.bytes);
}

/// A line that is followed by `rest` ends where its line feed stands.
proof fn lemma_first_line(line: Seq<u8>, rest: Seq<u8>)
    requires
        forall|j: int| 0 <= j < line.len() ==> line[j] != LINE_FEED,
    ensures
        line_length(line + seq![LINE_FEED] + rest) == line.len(),
        (line + seq![LINE_FEED] + rest).take(line.len() as int) == line,
        (line + seq![LINE_FEED] + rest).skip(line.len() as int + 1) == rest,
{
    let text = line + seq![LINE_FEED] + rest;
    assert(line_ends_at(text, line.len() as int)) by {
        assert(text[line.len() as int] == LINE_FEED);
        assert forall|j: int| 0 <= j < line.len() implies text[j] != LINE_FEED by {
            assert(text[j] == line[j]);
        }
    }
    lemma_line_length(text, line.len() as int);
    assert(text.take(line.len() as int) =~= line);
    assert(text.skip(line.len() as int + 1) =~= rest);
}

/// A signature line is read back as the signature that it was written for.
proof fn lemma_record_round_trip(signature: SignatureView, rest: Seq<u8>)
    ensures
        line_length(signature_record(signature) + rest) == signature_record(signature).len() - 1,
        parse_record(
            (signature_record(signature) + rest).take(signature_record(signature).len() - 1),
        ) == Some(signature),
        (signature_record(signature) + rest).skip(signature_record(signature).len() as int)
            == rest,
{
    let raw = record_bytes(signature);
    let line = hex_encode(raw);
    lemma_hex_round_trip(raw);
    lemma_record_bytes(signature);
    lemma_first_line(line, rest);
    assert(signature_record(signature) == line + seq![LINE_FEED]);
    assert(signature_record(signature).len() == line.len() + 1);
}

/// Signature lines are read back as the signatures that they were written
/// for.
pub proof fn lemma_records_round_trip(signatures: Seq<SignatureView>)
    ensures
        parse_records(signature_records(signatures)) == Some(signatures),
    decreases signatures.len(),
{
    if signatures.len() > 0 {
        let first = signatures.first();
        let rest = signature_records(signatures.drop_first());
        lemma_record_round_trip(first, rest);
        lemma_records_round_trip(signatures.drop_first());
        assert(seq![first] + signatures.drop_first() =~= signatures);
    }
}

/// Opening a sealed envelope gives back the payload and the signatures,
/// whenever the payload holds no line feed.
pub proof fn lemma_envelope_round_trip(payload: Seq<u8>, signatures: Seq<SignatureView>)
    requires
        single_line(payload),
    ensures
        open_envelope(seal_envelope(payload, signatures)) == Some((payload, signatures)),
{
    lemma_first_line(payload, signature_records(signatures));
    lemma_records_round_trip(signatures);
}

/// The lines of two runs of signatures are the lines of the first followed
/// by the lines of the second.
proof fn lemma_records_append(first: Seq<SignatureView>, second: Seq<SignatureView>)
    ensures
        signature_records(first + second) == signature_records(first) + signature_records(second),
    decreases first.len(),
{
    if first.len() == 0 {
        assert(first + second =~= second);
        assert(signature_records(first) + signature_records(second) =~= signature_records(second));
    } else {
        assert((first + second).drop_first() =~= first.drop_first() + second);
        lemma_records_append(first.drop_first(), second);
        assert(signature_record(first.first()) + (signature_records(first.drop_first())
            + signature_records(second)) =~= signature_record(first.first()) + signature_records(
            first.drop_first(),
        ) + signature_records(second));
    }
}

/// Seals `payload` and `signatures` into an envelope.
pub fn seal(payload: &[u8], signatures: &Vec<Signature>) -> (envelope: Vec<u8>)
    ensures
        envelope@ == seal_envelope(payload@, signature_views(signatures@)),
{
    let ghost views = signature_views(signatures@);
    let mut envelope = crate::bytes::copy_bytes(payload);
    envelope.push(LINE_FEED);
    let ghost head = payload@ + seq![LINE_FEED];
    assert(envelope@ =~= head);
    let mut i: usize = 0;
    assert(head + signature_records(views.take(0)) =~= head);
    while i < signatures.len()
        invariant
            i <= signatures.len(),
            views == signature_views(signatures@),
            envelope@ == head + signature_records(views.take(i as int)),
        decreases signatures.len() - i,
    {
        let signature = &signatures[i];
        let mut raw: Vec<u8> = Vec::new();
        raw.push((signature.index / 256) as u8);
        raw.push((signature.index % 256) as u8);
        let mut k: usize = 0;
        let ghost prefix = raw@;
        assert(prefix + signature.bytes@.take(0) =~= prefix);
        while k < signature.bytes.len()
            invariant
                k <= signature.bytes.len(),
                raw@ == prefix + signature.bytes@.take(k as int),
            decreases signature.bytes.len() - k,
        {
            raw.push(signature.bytes[k]);
            assert((prefix + signature.bytes@.take(k as int)).push(signature.bytes@[k as int])
                =~= prefix + signature.bytes@.take(k + 1));
            k += 1;
        }
        proof {
            assert(signature.bytes@.take(signature.bytes.len() as int) =~= signature.bytes@);
            assert(prefix =~= seq![(views[i as int].index / 256) as u8, (views[i as int].index
                % 256) as u8]);
            assert(raw@ =~= record_bytes(views[i as int]));
            let one = seq![views[i as int]];
            assert(views.take(i + 1) =~= views.take(i as int) + one);
            lemma_records_append(views.take(i as int), one);
            assert(one.drop_first() =~= Seq::<SignatureView>::empty());
            assert(signature_records(one.drop_first()) =~= Seq::<u8>::empty());
            assert(one.first() == views[i as int]);
            assert(signature_records(one) =~= signature_record(views[i as int]));
        }
        let ghost before = envelope@;
        encode_hex(raw.as_slice(), &mut envelope);
        envelope.push(LINE_FEED);
        assert(envelope@ =~= before + signature_record(views[i as int]));
        assert(head + signature_records(views.take(i as int)) + signature_record(views[i as int])
            =~= head + (signature_records(views.take(i as int)) + signature_record(
            views[i as int],
        )));
        i += 1;
    }
    assert(views.take(signatures.len() as int) =~= views);
    envelope
}

/// The index of the first line feed of `text` at or behind `from`.
fn find_line_feed(text: &[u8], from: usize) -> (found: Option<usize>)
    requires
        from <= text.len(),
    ensures
        match found {
            Some(at) => from <= at < text.len() && line_ends_at(text@.skip(from as int), at - from),
            None => forall|j: int| 0 <= j < text.len() - from ==> text@.skip(from as int)[j]
                != LINE_FEED,
        },
{
    let mut at: usize = from;
    while at < text.len()
        invariant
            from <= at <= text.len(),
            forall|j: int| 0 <= j < at - from ==> text@.skip(from as int)[j] != LINE_FEED,
        decreases text.len() - at,
    {
        if text[at] == LINE_FEED {
            assert(text@.skip(from as int)[at - from] == LINE_FEED);
            return Some(at);
        }
        assert(text@.skip(from as int)[at - from] == text@[at as int]);
        at += 1;
    }
    None
}

/// A copy of the bytes of `text` from `from` up to `to`.
fn copy_range(text: &[u8], from: usize, to: usize) -> (part: Vec<u8>)
    requires
        from <= to <= text.len(),
    ensures
        part@ == text@.subrange(from as int, to as int),
{
    let mut part: Vec<u8> = Vec::new();
    let mut i: usize = from;
    while i < to
        invariant
            from <= i <= to <= text.len(),
            part@ == text@.subrange(from as int, i as int),
        decreases to - i,
    {
        part.push(text[i]);
        assert(text@.subrange(from as int, i as int).push(text@[i as int]) =~= text@.subrange(
            from as int,
            i + 1,
        ));
        i += 1;
    }
    part
}

/// Reads the signature that a line, without its line feed, holds.
fn read_record(line: &[u8]) -> (signature: Option<Signature>)
    ensures
        match signature {
            Some(s) => parse_record(line@) == Some(s@),
            None => parse_record(line@) is None,
        },
{
    match decode_hex(line) {
        Some(raw) => {
            if raw.len() >= 2 {
                let index: u16 = (raw[0] as u16) * 256 + (raw[1] as u16);
                let bytes = copy_range(raw.as_slice(), 2, raw.len());
                assert(bytes@ =~= raw@.skip(2));
                Some(Signature { index, bytes })
            } else {
                None
            }
        },
        None => None,
    }
}

/// Opens an envelope: its payload and its signatures, or `None` where the
/// bytes are no envelope.
pub fn open(envelope: &[u8]) -> (opened: Option<(Vec<u8>, Vec<Signature>)>)
    ensures
        match opened {
            Some(parts) => open_envelope(envelope@) == Some(
                (parts.0@, signature_views(parts.1@)),
            ),
            None => open_envelope(envelope@) is None,
        },
{
    let end = match find_line_feed(envelope, 0) {
        Some(at) => at,
        None => {
            proof {
                assert(envelope@.skip(0) =~= envelope@);
                lemma_line_unended(envelope@);
            }
            return None;
        },
    };
    proof {
        assert(envelope@.skip(0) =~= envelope@);
        lemma_line_length(envelope@, end as int);
    }
    let payload = copy_range(envelope, 0, end);
    assert(payload@ =~= envelope@.take(end as int));
    let start: usize = end + 1;
    let mut signatures: Vec<Signature> = Vec::new();
    let mut pos: usize = start;
    let ghost lines = envelope@.skip(start as int);
    assert(signature_views(signatures@) =~= Seq::<SignatureView>::empty());
    assert(prepend(signature_views(signatures@), parse_records(envelope@.skip(pos as int)))
        == parse_records(lines)) by {
        match parse_records(lines) {
            Some(all) => {
                assert(Seq::<SignatureView>::empty() + all =~= all);
            },
            None => {},
        }
    }
    while pos < envelope.len()
        invariant
            start <= pos <= envelope.len(),
            start == end + 1,
            line_length(envelope@) == end,
            lines == envelope@.skip(start as int),
            parse_records(lines) == prepend(
                signature_views(signatures@),
                parse_records(envelope@.skip(pos as int)),
            ),
        decreases envelope.len() - pos,
    {
        let ghost rest = envelope@.skip(pos as int);
        let ghost done = signature_views(signatures@);
        match find_line_feed(envelope, pos) {
            None => {
                proof {
                    lemma_line_unended(rest);
                }
                return None;
            },
            Some(at) => {
                proof {
                    lemma_line_length(rest, at - pos);
                    assert(rest.take(at - pos) =~= envelope@.subrange(pos as int, at as int));
                    assert(rest.skip(at - pos + 1) =~= envelope@.skip(at + 1));
                }
                let line = copy_range(envelope, pos, at);
                match read_record(line.as_slice()) {
                    None => {
                        return None;
                    },
                    Some(signature) => {
                        proof {
                            assert(signature_views(signatures@.push(signature)) =~= done.push(
                                signature@,
                            ));
                            match parse_records(envelope@.skip(at + 1)) {
                                Some(more) => {
                                    assert(done + (seq![signature@] + more) =~= done.push(
                                        signature@,
                                    ) + more);
                                },
                                None => {},
                            }
                        }
                        signatures.push(signature);
                        pos = at + 1;
                    },
                }
            },
        }
    }
    proof {
        assert(envelope@.skip(pos as int).len() == 0);
        assert(signature_views(signatures@) + Seq::<SignatureView>::empty() =~= signature_views(
            signatures@,
        ));
    }
    Some((payload, signatures))
}

} // verus!
