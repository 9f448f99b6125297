//! The field-tagged text frames that carry domain events to streaming
//! subscribers: one event per frame, the variant as the tag, every field
//! named, text fields quoted, with backslash and quote escaped by a
//! backslash and control characters as four-digit escapes.

use vstd::prelude::*;

use crate::digest::{hex_char_of, hex_digit_str};
use crate::events::BlockchainEvent;
use crate::numfmt::{dec_rep, u32_to_string, u64_to_string, usize_to_string};
use crate::strings::string_push;

verus! {

/// How one character reads inside a quoted field: a quote or backslash is
/// preceded by a backslash, a control character becomes its four-digit
/// escape, and anything else stands as itself.
pub open spec fn escape_char(c: char) -> Seq<char> {
    if c == '"' {
        seq!['\\', '"']
    } else if c == '\\' {
        seq!['\\', '\\']
    } else if (c as u32) < 32 {
        seq!['\\', 'u', '0', '0', hex_char_of((c as u32 / 16) as u8), hex_char_of(
            (c as u32 % 16) as u8,
        )]
    } else {
        seq![c]
    }
}

/// `s`, character for character, as it reads inside a quoted field.
pub open spec fn escaped(s: Seq<char>) -> Seq<char>
    decreases s.len(),
{
    if s.len() == 0 {
        Seq::empty()
    } else {
        escaped(s.drop_last()) + escape_char(s.last())
    }
}

/// A quoted, escaped text field.
pub open spec fn quoted(s: Seq<char>) -> Seq<char> {
    seq!['"'] + escaped(s) + seq!['"']
}

/// Appends `quoted(s@)` to `out`.
pub(crate) fn push_quoted(out: &mut String, s: &str)
    ensures
        final(out)@ == old(out)@ + quoted(s@),
{
    let ghost sv = s@;
    string_push(out, '"');
    let n = s.unicode_len();
    let mut i: usize = 0;
    proof {
        assert(sv.take(0) =~= Seq::<char>::empty());
        assert(escaped(sv.take(0)) =~= Seq::<char>::empty());
        assert(out@ =~= old(out)@ + seq!['"'] + escaped(sv.take(0)));
    }
    while i < n
        invariant
            i <= n,
            n == sv.len(),
            sv == s@,
            out@ == old(out)@ + seq!['"'] + escaped(sv.take(i as int)),
        decreases n - i,
    {
        let c = s.get_char(i);
        if c == '"' {
            string_push(out, '\\');
            string_push(out, '"');
        } else if c == '\\' {
            string_push(out, '\\');
            string_push(out, '\\');
        } else if (c as u32) < 32 {
            string_push(out, '\\');
            string_push(out, 'u');
            string_push(out, '0');
            string_push(out, '0');
            let v = c as u32;
            out.append(hex_digit_str((v / 16) as u8));
            out.append(hex_digit_str((v % 16) as u8));
        } else {
            string_push(out, c);
        }
        proof {
            assert(sv.take(i + 1).drop_last() =~= sv.take(i as int));
            assert(sv.take(i + 1).last() == sv[i as int]);
            assert(out@ =~= old(out)@ + seq!['"'] + escaped(sv.take(i + 1)));
        }
        i += 1;
    }
    string_push(out, '"');
    proof {
        assert(sv.take(n as int) =~= sv);
        assert(out@ =~= old(out)@ + quoted(sv));
    }
}

/// The frame text of one event.
pub open spec fn spec_encode_event(e: BlockchainEvent) -> Seq<char> {
    match e {
        BlockchainEvent::BlockMiningStarted { block_index, miner, timestamp } => {
            "{\"BlockMiningStarted\":{\"block_index\":"@ + dec_rep(block_index as u64)
                + ",\"miner\":"@ + quoted(miner@) + ",\"timestamp\":"@ + dec_rep(timestamp)
                + "}}"@
        },
        BlockchainEvent::BlockMined { block_index, hash, miner, timestamp, transactions_count } => {
            "{\"BlockMined\":{\"block_index\":"@ + dec_rep(block_index as u64) + ",\"hash\":"@
                + quoted(hash@) + ",\"miner\":"@ + quoted(miner@) + ",\"timestamp\":"@ + dec_rep(
                timestamp,
            ) + ",\"transactions_count\":"@ + dec_rep(transactions_count as u64) + "}}"@
        },
        BlockchainEvent::TransactionCreated { from, to, amount, fee, block_index } => {
            "{\"TransactionCreated\":{\"from\":"@ + quoted(from@) + ",\"to\":"@ + quoted(to@)
                + ",\"amount\":"@ + dec_rep(amount) + ",\"fee\":"@ + dec_rep(fee)
                + ",\"block_index\":"@ + dec_rep(block_index as u64) + "}}"@
        },
        BlockchainEvent::BlockchainUpdated { total_blocks, total_transactions } => {
            "{\"BlockchainUpdated\":{\"total_blocks\":"@ + dec_rep(total_blocks as u64)
                + ",\"total_transactions\":"@ + dec_rep(total_transactions as u64) + "}}"@
        },
    }
}

/// Renders one event as its frame text.
pub fn encode_event(e: &BlockchainEvent) -> (r: String)
    ensures
        r@ == spec_encode_event(*e),
{
    let mut out = String::new();
    match e {
        BlockchainEvent::BlockMiningStarted { block_index, miner, timestamp } => {
            out.append("{\"BlockMiningStarted\":{\"block_index\":");
            let n = u32_to_string(*block_index);
            out.append(n.as_str());
            out.append(",\"miner\":");
            push_quoted(&mut out, miner.as_str());
            out.append(",\"timestamp\":");
            let t = u64_to_string(*timestamp);
            out.append(t.as_str());
            out.append("}}");
            proof {
                assert(out@ =~= spec_encode_event(*e));
            }
        },
        BlockchainEvent::BlockMined { block_index, hash, miner, timestamp, transactions_count } => {
            out.append("{\"BlockMined\":{\"block_index\":");
            let n = u32_to_string(*block_index);
            out.append(n.as_str());
            out.append(",\"hash\":");
            push_quoted(&mut out, hash.as_str());
            out.append(",\"miner\":");
            push_quoted(&mut out, miner.as_str());
            out.append(",\"timestamp\":");
            let t = u64_to_string(*timestamp);
            out.append(t.as_str());
            out.append(",\"transactions_count\":");
            let c = usize_to_string(*transactions_count);
            out.append(c.as_str());
            out.append("}}");
            proof {
                assert(out@ =~= spec_encode_event(*e));
            }
        },
        BlockchainEvent::TransactionCreated { from, to, amount, fee, block_index } => {
            out.append("{\"TransactionCreated\":{\"from\":");
            push_quoted(&mut out, from.as_str());
            out.append(",\"to\":");
            push_quoted(&mut out, to.as_str());
            out.append(",\"amount\":");
            let a = u64_to_string(*amount);
            out.append(a.as_str());
            out.append(",\"fee\":");
            let f = u64_to_string(*fee);
            out.append(f.as_str());
            out.append(",\"block_index\":");
            let n = u32_to_string(*block_index);
            out.append(n.as_str());
            out.append("}}");
            proof {
                assert(out@ =~= spec_encode_event(*e));
            }
        },
        BlockchainEvent::BlockchainUpdated { total_blocks, total_transactions } => {
            out.append("{\"BlockchainUpdated\":{\"total_blocks\":");
            let b = usize_to_string(*total_blocks);
            out.append(b.as_str());
            out.append(",\"total_transactions\":");
            let t = usize_to_string(*total_transactions);
            out.append(t.as_str());
            out.append("}}");
            proof {
                assert(out@ =~= spec_encode_event(*e));
            }
        },
    }
    out
}

} // verus!
