//! The framing shared by CodeView symbol records and type records: a `u16` length (which counts
//! the kind and payload), a `u16` kind, and the payload.

use vstd::prelude::*;
use crate::le::le_u16;
use crate::parser::Parser;

verus! {

/// Whether `s` begins with a complete record.
pub open spec fn has_record(s: Seq<u8>) -> bool {
    &&& s.len() >= 4
    &&& le_u16(s) >= 2
    &&& 2 + le_u16(s) <= s.len()
}

/// The total size of the record at the start of `s` (header included).
pub open spec fn record_size(s: Seq<u8>) -> int {
    2 + le_u16(s)
}

/// The kind code of the record at the start of `s`.
pub open spec fn record_kind(s: Seq<u8>) -> u16 {
    le_u16(s.skip(2)) as u16
}

/// The payload of the record at the start of `s`.
pub open spec fn record_payload(s: Seq<u8>) -> Seq<u8> {
    s.subrange(4, record_size(s))
}

/// The offsets at which successive records begin, starting at `pos`, followed by the offset at
/// which decoding stops (the end of the data, or the first incomplete record).
pub open spec fn record_starts_from(s: Seq<u8>, pos: int) -> Seq<int>
    decreases s.len() - pos,
{
    if 0 <= pos < s.len() && has_record(s.skip(pos)) {
        seq![pos] + record_starts_from(s, pos + record_size(s.skip(pos)))
    } else {
        seq![pos]
    }
}

/// The offsets listed by `record_starts_from` begin at `pos`, each one but the last starts a
/// complete record that ends where the next offset begins, and the last one is where decoding
/// stops: the end of the data, or a position where no complete record begins.
pub proof fn lemma_record_starts_from(s: Seq<u8>, pos: int)
    requires
        0 <= pos <= s.len(),
    ensures
        record_starts_from(s, pos).len() >= 1,
        record_starts_from(s, pos)[0] == pos,
        ({
            let st = record_starts_from(s, pos);
            &&& forall|i: int|
                0 <= i < st.len() - 1 ==> 0 <= #[trigger] st[i] < s.len() && has_record(s.skip(st[i]))
                    && st[i + 1] == st[i] + record_size(s.skip(st[i]))
            &&& forall|i: int| 0 <= i < st.len() ==> pos <= #[trigger] st[i] <= s.len()
            &&& !(st.last() < s.len() && has_record(s.skip(st.last())))
        }),
    decreases s.len() - pos,
{
    let st = record_starts_from(s, pos);
    if 0 <= pos < s.len() && has_record(s.skip(pos)) {
        let next = pos + record_size(s.skip(pos));
        lemma_record_starts_from(s, next);
        let rest = record_starts_from(s, next);
        assert(st == seq![pos] + rest);
        assert forall|i: int| 0 <= i < st.len() - 1 implies 0 <= #[trigger] st[i] < s.len()
            && has_record(s.skip(st[i])) && st[i + 1] == st[i] + record_size(s.skip(st[i])) by {
            if i > 0 {
                assert(st[i] == rest[i - 1]);
                assert(st[i + 1] == rest[i]);
            }
        }
        assert forall|i: int| 0 <= i < st.len() implies pos <= #[trigger] st[i] <= s.len() by {
            if i > 0 {
                assert(st[i] == rest[i - 1]);
            }
        }
        assert(st.last() == rest.last());
    }
}

/// Splits the record at the start of `bytes` into its kind, its payload and the rest of the
/// input. Returns `None` when `bytes` does not begin with a complete record.
pub fn split_record<'a>(bytes: &'a [u8]) -> (r: Option<(u16, &'a [u8], &'a [u8])>)
    ensures
        r is Some <==> has_record(bytes@),
        r matches Some((kind, payload, rest)) ==> kind == record_kind(bytes@) && payload@
            == record_payload(bytes@) && rest@ == bytes@.skip(record_size(bytes@)),
{
    let mut p = Parser::new(bytes);
    let record_len = match p.u16() {
        Ok(v) => v,
        Err(_) => return None,
    };
    if record_len < 2 {
        return None;
    }
    let kind = match p.u16() {
        Ok(v) => v,
        Err(_) => return None,
    };
    let data = match p.bytes(record_len as usize - 2) {
        Ok(d) => d,
        Err(_) => return None,
    };
    proof {
        assert(bytes@.skip(2).skip(2) =~= bytes@.skip(4));
        assert(data@ =~= record_payload(bytes@));
        assert(bytes@.skip(4).skip(record_len - 2) =~= bytes@.skip(record_size(bytes@)));
    }
    Some((kind, data, p.into_rest()))
}

} // verus!
