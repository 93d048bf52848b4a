//! What writing and reading system exclusive messages promise together.
use vstd::prelude::*;
use crate::bytes::find_from;
use crate::midi_tools::messages::sysex::{
    all_data, array_with_view, decode_group, decode_groups, decode_length, drop_real_time,
    encode_group, encode_groups, encoded_group_len, find_terminator, group_high_bits, group_len,
    is_data_byte, is_real_time_byte, lemma_decode_groups_len, lemma_xor_all_concat, length_bytes,
    pad_packet_data, packet_byte_count, packet_checked_bytes, packet_payload, parse_message_spec,
    read_spec, read_step_spec, xor_all, ReadOutcome, SysEx, SUB_ID_FILE_DUMP,
    SUB_ID_FILE_DUMP_PACKET, SYSEX_END, SYSEX_START, UNIVERSAL_NON_REAL_TIME,
};

verus! {

/// Bytes below `0xF8` hold no real-time byte, so reading keeps all of them.
proof fn lemma_drop_real_time_keeps(s: Seq<u8>)
    requires
        forall|i: int| 0 <= i < s.len() ==> !is_real_time_byte(#[trigger] s[i]),
    ensures
        drop_real_time(s) == s,
    decreases s.len(),
{
    if s.len() > 0 {
        lemma_drop_real_time_keeps(s.drop_last());
        assert(drop_real_time(s.drop_last()).push(s.last()) =~= s);
    }
}

/// A message that starts with a start of exclusive, holds only data bytes, and ends with an
/// end of exclusive is cut right after its end.
proof fn lemma_find_terminator_at(s: Seq<u8>, from: int, k: int)
    requires
        1 <= from <= k < s.len(),
        forall|i: int| from <= i < k ==> is_data_byte(#[trigger] s[i]),
        s[k] == SYSEX_END,
    ensures
        find_terminator(s, from) == Some(k),
    decreases k - from,
{
    if from < k {
        lemma_find_terminator_at(s, from + 1, k);
    }
}

proof fn lemma_length_roundtrip(length: u32)
    requires
        length <= 0x0FFF_FFFF,
    ensures
        decode_length(length_bytes(length)) == length,
{
    let b = length_bytes(length);
    let b0 = (length & 0x7F) as u8;
    let b1 = ((length >> 7u32) & 0x7F) as u8;
    let b2 = ((length >> 14u32) & 0x7F) as u8;
    let b3 = ((length >> 21u32) & 0x7F) as u8;
    assert(b[0] == b0 && b[1] == b1 && b[2] == b2 && b[3] == b3);
    assert((b0 as u32) | ((b1 as u32) << 7u32) | ((b2 as u32) << 14u32) | ((b3 as u32) << 21u32)
        == length) by (bit_vector)
        requires
            length <= 0x0FFF_FFFF,
            b0 == (length & 0x7F) as u8,
            b1 == ((length >> 7u32) & 0x7F) as u8,
            b2 == ((length >> 14u32) & 0x7F) as u8,
            b3 == ((length >> 21u32) & 0x7F) as u8,
    ;
}

/// Adding the top bit of the next byte to a byte of top bits: the new bit lands at the right
/// place and the earlier ones stay.
proof fn lemma_high_bits_step(h: u8, x: u8, n: u8)
    requires
        1 <= n <= 7,
        h < 0x80,
        h & (0xFFu8 >> n) == 0,
    ensures
        (h | ((x & 0x80) >> n)) < 0x80,
        (h | ((x & 0x80) >> n)) & (0xFFu8 >> ((n + 1) as u8)) == 0,
        ((h | ((x & 0x80) >> n)) << n) & 0x80 == x & 0x80,
{
    assert((h | ((x & 0x80) >> n)) < 0x80) by (bit_vector)
        requires
            1 <= n <= 7,
            h < 0x80,
    ;
    assert((h | ((x & 0x80) >> n)) & (0xFFu8 >> ((n + 1) as u8)) == 0) by (bit_vector)
        requires
            1 <= n <= 7,
            h & (0xFFu8 >> n) == 0,
    ;
    assert(((h | ((x & 0x80) >> n)) << n) & 0x80 == x & 0x80) by (bit_vector)
        requires
            1 <= n <= 7,
            h & (0xFFu8 >> n) == 0,
    ;
}

proof fn lemma_high_bits_keep(h: u8, x: u8, n: u8, s: u8)
    requires
        1 <= s < n <= 7,
        h & (0xFFu8 >> n) == 0,
    ensures
        ((h | ((x & 0x80) >> n)) << s) & 0x80 == (h << s) & 0x80,
{
    assert(((h | ((x & 0x80) >> n)) << s) & 0x80 == (h << s) & 0x80) by (bit_vector)
        requires
            1 <= s < n <= 7,
            h & (0xFFu8 >> n) == 0,
    ;
}

/// The byte of top bits holds the top bit of the `k`-th byte at bit `6 - k`, and nothing below
/// the bits of the group.
proof fn lemma_group_high_bits(c: Seq<u8>)
    requires
        c.len() <= 7,
    ensures
        group_high_bits(c) < 0x80,
        group_high_bits(c) & (0xFFu8 >> ((c.len() + 1) as u8)) == 0,
        forall|k: int|
            0 <= k < c.len() ==> (group_high_bits(c) << ((k + 1) as u8)) & 0x80 == #[trigger] c[k]
                & 0x80,
    decreases c.len(),
{
    if c.len() == 0 {
        assert(0u8 & (0xFFu8 >> 1u8) == 0) by (bit_vector);
    } else {
        let p = c.drop_last();
        lemma_group_high_bits(p);
        let h = group_high_bits(p);
        let n = c.len() as u8;
        let x = c.last();
        lemma_high_bits_step(h, x, n);
        assert forall|k: int| 0 <= k < c.len() implies (group_high_bits(c) << ((k + 1) as u8))
            & 0x80 == #[trigger] c[k] & 0x80 by {
            if k < c.len() - 1 {
                lemma_high_bits_keep(h, x, n, (k + 1) as u8);
                assert(c[k] == p[k]);
            }
        }
    }
}

/// Decoding one encoded group gives back its bytes.
proof fn lemma_decode_encode_group(c: Seq<u8>)
    requires
        1 <= c.len() <= 7,
    ensures
        decode_group(encode_group(c)) == c,
{
    lemma_group_high_bits(c);
    let g = encode_group(c);
    assert forall|k: int| 0 <= k < c.len() implies #[trigger] decode_group(g)[k] == c[k] by {
        let b = c[k];
        let h = group_high_bits(c);
        assert(g[0] == h);
        assert(g[k + 1] == b & 0x7F);
        assert((b & 0x7F) | (b & 0x80) == b) by (bit_vector);
    }
    assert(decode_group(g) =~= c);
}

proof fn lemma_encode_group_data(c: Seq<u8>)
    requires
        c.len() <= 7,
    ensures
        all_data(encode_group(c)),
        encode_group(c).len() == c.len() + 1,
{
    lemma_group_high_bits(c);
    let g = encode_group(c);
    assert forall|i: int| 0 <= i < g.len() implies is_data_byte(#[trigger] g[i]) by {
        if i > 0 {
            let b = c[i - 1];
            assert(b & 0x7F < 0x80) by (bit_vector);
        }
    }
}

/// An encoded payload is made of data bytes, one more per group of seven, and decodes back to
/// the payload.
proof fn lemma_encode_groups(data: Seq<u8>)
    ensures
        all_data(encode_groups(data)),
        encode_groups(data).len() == data.len() + (data.len() + 6) / 7,
        decode_groups(encode_groups(data)) == data,
    decreases data.len(),
{
    if data.len() > 0 {
        let n = group_len(data.len() as int);
        let c = data.subrange(0, n);
        let rest = data.subrange(n, data.len() as int);
        lemma_encode_groups(rest);
        lemma_encode_group_data(c);
        lemma_decode_encode_group(c);
        let g = encode_group(c);
        let e = encode_groups(data);
        assert(e == g + encode_groups(rest));
        assert(encoded_group_len(e.len() as int) == g.len());
        assert(e.subrange(0, g.len() as int) =~= g);
        assert(e.subrange(g.len() as int, e.len() as int) =~= encode_groups(rest));
        assert(c + rest =~= data);
        assert(all_data(e)) by {
            assert forall|i: int| 0 <= i < e.len() implies is_data_byte(#[trigger] e[i]) by {
                if i < g.len() {
                    assert(e[i] == g[i]);
                } else {
                    assert(e[i] == encode_groups(rest)[i - g.len()]);
                }
            }
        }
    } else {
        assert(decode_groups(encode_groups(data)) =~= data);
    }
}

proof fn lemma_xor_all_data(s: Seq<u8>)
    requires
        all_data(s),
    ensures
        xor_all(s) < 0x80,
    decreases s.len(),
{
    if s.len() > 0 {
        lemma_xor_all_data(s.drop_last());
        let x = xor_all(s.drop_last());
        let y = s.last();
        assert(x < 0x80 && y < 0x80 ==> x ^ y < 0x80) by (bit_vector);
    }
}

/// What reading sees of the bytes that writing emitted: one message, all data between its
/// start and its end.
proof fn lemma_encoding_shape(m: SysEx)
    requires
        m.well_formed(),
        !(m is IdentityRequest),
        !(m is IdentityReply),
    ensures
        m.encoding().len() >= 6,
        m.encoding()[0] == SYSEX_START,
        m.encoding()[m.encoding().len() - 1] == SYSEX_END,
        forall|i: int| 1 <= i < m.encoding().len() - 1 ==> is_data_byte(#[trigger] m.encoding()[i]),
        parse_message_spec(m.encoding()) == Some(m),
{
    broadcast use vstd::array::group_array_axioms;

    let e = m.encoding();
    match m {
        SysEx::FileDumpHeader(d) => {
            lemma_length_roundtrip(d.length);
            let l = d.length;
            assert(((l & 0x7F) as u8) < 0x80 && (((l >> 7u32) & 0x7F) as u8) < 0x80 && (((l
                >> 14u32) & 0x7F) as u8) < 0x80 && (((l >> 21u32) & 0x7F) as u8) < 0x80)
                by (bit_vector);
            assert(e.subrange(10, 14) =~= length_bytes(d.length));
            assert(e.subrange(6, 10) =~= d.raw_file_type@);
            assert(find_from(e, SYSEX_END, 14) == Some(14int));
            let a = array_with_view::<4>(d.raw_file_type@);
            assert(a@ == d.raw_file_type@);
            assert(a == d.raw_file_type);
            assert forall|i: int| 1 <= i < e.len() - 1 implies is_data_byte(#[trigger] e[i]) by {
                if 6 <= i < 10 {
                    assert(e[i] == d.raw_file_type@[i - 6]);
                }
            }
        },
        SysEx::FileDumpPacket(d) => {
            let payload = packet_payload(d);
            lemma_encode_groups(payload);
            let groups = encode_groups(payload);
            let n = d.data_size as int;
            let bc = packet_byte_count(n);
            assert(bc as int == n + (n + 6) / 7 - 1);
            let checked = packet_checked_bytes(d);
            let prelude = seq![
                UNIVERSAL_NON_REAL_TIME,
                d.device_id,
                SUB_ID_FILE_DUMP,
                SUB_ID_FILE_DUMP_PACKET,
                d.packet_num,
                bc,
            ];
            assert(checked == prelude + groups);
            lemma_xor_all_concat(prelude, groups);
            let dev = d.device_id;
            let pn = d.packet_num;
            assert(xor_all(prelude) == ((((((0u8 ^ 0x7Eu8) ^ dev) ^ 0x07u8) ^ 0x02u8) ^ pn) ^ bc)) by {
                reveal_with_fuel(xor_all, 7);
                assert(prelude.drop_last().drop_last().drop_last().drop_last().drop_last().drop_last()
                    =~= Seq::<u8>::empty());
            }
            assert(((((((0u8 ^ 0x7Eu8) ^ dev) ^ 0x07u8) ^ 0x02u8) ^ pn) ^ bc) == 0x7B ^ dev ^ pn ^ bc)
                by (bit_vector);
            let x = xor_all(groups);
            assert((0x7Bu8 ^ dev ^ pn ^ bc) ^ x == 0x7B ^ dev ^ pn ^ bc ^ x) by (bit_vector);
            assert(all_data(checked)) by {
                assert forall|i: int| 0 <= i < checked.len() implies is_data_byte(#[trigger] checked[i]) by {
                    if i >= 6 {
                        assert(checked[i] == groups[i - 6]);
                    }
                }
            }
            lemma_xor_all_data(checked);
            assert(e[6] == bc);
            assert(e.subrange(7, 8 + bc) =~= groups);
            lemma_decode_groups_len(groups);
            let a = array_with_view::<112>(pad_packet_data(payload));
            assert(a@ == d.data@);
            assert(a == d.data);
            assert forall|i: int| 1 <= i < e.len() - 1 implies is_data_byte(#[trigger] e[i]) by {
                if i < 7 {
                    assert(e[i] == checked[i - 1]);
                } else if i < e.len() - 2 {
                    assert(e[i] == checked[i - 1]);
                }
            }
        },
        _ => {},
    }
}

/// No encoding is longer than [`SysEx::MAX_LENGTH`].
pub proof fn lemma_encoding_len(m: SysEx)
    requires
        m.writable(),
    ensures
        m.encoding().len() <= 137,
{
    if let SysEx::FileDumpPacket(d) = m {
        lemma_encode_groups(packet_payload(d));
    }
}

/// Whatever follows it, a message that was written is read back whole, and reading consumes
/// exactly its bytes. Identity messages are not written, so they are left out.
pub proof fn lemma_write_then_read(m: SysEx, rest: Seq<u8>)
    requires
        m.well_formed(),
        !(m is IdentityRequest),
        !(m is IdentityReply),
    ensures
        read_spec(m.encoding() + rest) == (m.encoding().len() as int, Some(m)),
{
    lemma_encoding_shape(m);
    let e = m.encoding();
    let buf = e + rest;
    let k = e.len() - 1;
    assert(buf[0] == SYSEX_START);
    assert(find_from(buf, SYSEX_START, 0) == Some(0int));
    assert forall|i: int| 1 <= i < k implies is_data_byte(#[trigger] buf[i]) by {
        assert(buf[i] == e[i]);
    }
    lemma_find_terminator_at(buf, 1, k);
    assert(buf.subrange(0, k + 1) =~= e);
    assert forall|i: int| 0 <= i < e.len() implies !is_real_time_byte(#[trigger] e[i]) by {
        if 1 <= i < k {
            assert(is_data_byte(e[i]));
        }
    }
    lemma_drop_real_time_keeps(e);
    assert(read_step_spec(buf) == (e.len() as int, ReadOutcome::Found(m)));
}

} // verus!
