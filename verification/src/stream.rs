//! Word streams of a PRAM transfer: how a byte payload is cut into 32-bit
//! FIFO words, and what folding those words through the write engine does to
//! memory.

use vstd::prelude::*;
use crate::mem::{lemma_update_range_concat, update_range};
use crate::model::{
    burst_write_allowed, lane_byte, lane_word, step_push, step_write_burst, EscModel,
};
use crate::word::{lemma_word_byte_of_bytes, spec_word_byte};

verus! {

/// Words streamed after the first one: `data` grouped four bytes to a word,
/// least significant lane first, the last word zero-padded.
pub open spec fn pram_tail_words(data: Seq<u8>) -> Seq<u32>
    decreases data.len(),
{
    if data.len() == 0 {
        Seq::empty()
    } else {
        let t = if data.len() <= 4 {
            data.len() as int
        } else {
            4
        };
        seq![lane_word(data.take(t), 0)] + pram_tail_words(data.skip(t))
    }
}

/// Every word a PRAM write of `data` at `addr` pushes through the FIFO: the
/// first word carries its bytes at lanes `addr % 4` and up, the rest follow
/// in four-byte groups.
pub open spec fn pram_words(addr: int, data: Seq<u8>) -> Seq<u32> {
    let fbp = addr % 4;
    let t = if 4 - fbp <= data.len() {
        4 - fbp
    } else {
        data.len() as int
    };
    seq![lane_word(data.take(t), fbp)] + pram_tail_words(data.skip(t))
}

/// Pushing a word built from up to four payload bytes at lane `fbp` stores
/// exactly those bytes.
pub proof fn lemma_push_lane_word(m: EscModel, data: Seq<u8>, fbp: int)
    requires
        m.wf(),
        m.wr_active,
        fbp == m.wr_addr % 4,
        0 < data.len(),
        data.len() == if 4 - fbp <= m.wr_left {
            4 - fbp
        } else {
            m.wr_left as int
        },
    ensures
        step_push(m, lane_word(data, fbp)) == (EscModel {
            mem: update_range(m.mem, m.wr_addr, data),
            wr_addr: m.wr_addr + data.len(),
            wr_left: (m.wr_left - data.len()) as nat,
            wr_log: m.wr_log.push(lane_word(data, fbp)),
            ..m
        }),
{
    let w = lane_word(data, fbp);
    lemma_word_byte_of_bytes(
        lane_byte(data, fbp, 0),
        lane_byte(data, fbp, 1),
        lane_byte(data, fbp, 2),
        lane_byte(data, fbp, 3),
    );
    assert(0 <= fbp < 4) by (nonlinear_arith)
        requires
            fbp == m.wr_addr % 4,
    ;
    let t = data.len() as int;
    assert(Seq::new(t as nat, |i: int| spec_word_byte(w, fbp + i)) =~= data);
}

/// Streaming the tail words into a write engine that expects exactly `data`
/// at a word-aligned address stores `data`, advances the engine past it, and
/// logs exactly those words.
pub proof fn lemma_stream_tail(m: EscModel, data: Seq<u8>)
    requires
        m.wf(),
        m.wr_active,
        m.wr_left == data.len(),
        data.len() > 0 ==> m.wr_addr % 4 == 0,
    ensures
        burst_write_allowed(m, pram_tail_words(data)),
        step_write_burst(m, pram_tail_words(data)) == (EscModel {
            mem: update_range(m.mem, m.wr_addr, data),
            wr_addr: m.wr_addr + data.len(),
            wr_left: 0,
            wr_log: m.wr_log + pram_tail_words(data),
            ..m
        }),
    decreases data.len(),
{
    if data.len() == 0 {
        assert(update_range(m.mem, m.wr_addr, data) =~= m.mem);
        assert(m.wr_log + pram_tail_words(data) =~= m.wr_log);
        assert(step_write_burst(m, pram_tail_words(data)) =~= (EscModel {
            mem: update_range(m.mem, m.wr_addr, data),
            wr_addr: m.wr_addr + data.len(),
            wr_left: 0,
            wr_log: m.wr_log + pram_tail_words(data),
            ..m
        }));
    } else {
        let t = if data.len() <= 4 {
            data.len() as int
        } else {
            4
        };
        let ws = pram_tail_words(data);
        let w = lane_word(data.take(t), 0);
        assert(ws[0] == w);
        assert(ws.skip(1) =~= pram_tail_words(data.skip(t)));
        lemma_push_lane_word(m, data.take(t), 0);
        let m1 = step_push(m, w);
        assert(data.skip(t).len() > 0 ==> m1.wr_addr % 4 == 0) by {
            if data.len() > t {
                assert(t == 4);
                assert(m.wr_addr % 4 == 0 ==> (m.wr_addr + 4) % 4 == 0) by (nonlinear_arith);
            }
        }
        lemma_stream_tail(m1, data.skip(t));
        lemma_update_range_concat(m.mem, m.wr_addr, data.take(t), data.skip(t));
        assert(data.take(t) + data.skip(t) =~= data);
        assert(m.wr_log.push(w) + pram_tail_words(data.skip(t)) =~= m.wr_log + pram_tail_words(
            data,
        ));
        assert(step_write_burst(m, ws) == step_write_burst(m1, ws.skip(1)));
    }
}

/// A word-by-word walk through an allowed stream: before each word the
/// engine is still accepting, and pushing it extends the folded prefix.
pub proof fn lemma_burst_allowed_prefix(m: EscModel, ws: Seq<u32>, i: int)
    requires
        burst_write_allowed(m, ws),
        0 <= i < ws.len(),
    ensures
        step_write_burst(m, ws.take(i)).wr_active,
        step_write_burst(m, ws.take(i)).wr_left > 0,
        step_push(step_write_burst(m, ws.take(i)), ws[i]) == step_write_burst(m, ws.take(i + 1)),
    decreases i,
{
    let m1 = step_push(m, ws[0]);
    if i == 0 {
        assert(ws.take(0) =~= Seq::<u32>::empty());
        assert(step_write_burst(m, ws.take(0)) == m);
        assert(ws.take(1)[0] == ws[0]);
        assert(ws.take(1).skip(1) =~= Seq::<u32>::empty());
        assert(step_write_burst(m, ws.take(1)) == step_write_burst(m1, ws.take(1).skip(1)));
    } else {
        lemma_burst_allowed_prefix(m1, ws.skip(1), i - 1);
        assert(ws.skip(1).take(i - 1) =~= ws.take(i).skip(1));
        assert(ws.skip(1).take(i) =~= ws.take(i + 1).skip(1));
        assert(ws.take(i)[0] == ws[0]);
        assert(ws.take(i + 1)[0] == ws[0]);
        assert(ws.skip(1)[i - 1] == ws[i]);
        assert(step_write_burst(m, ws.take(i)) == step_write_burst(m1, ws.take(i).skip(1)));
        assert(step_write_burst(m, ws.take(i + 1)) == step_write_burst(m1, ws.take(i + 1).skip(1)));
    }
}

/// Appending one more word to a stream pushes it after the others.
pub proof fn lemma_burst_snoc(m: EscModel, ws: Seq<u32>, w: u32)
    ensures
        step_write_burst(m, ws.push(w)) == step_push(step_write_burst(m, ws), w),
        burst_write_allowed(m, ws.push(w)) == (burst_write_allowed(m, ws) && step_write_burst(
            m,
            ws,
        ).wr_active && step_write_burst(m, ws).wr_left > 0),
    decreases ws.len(),
{
    if ws.len() == 0 {
        assert(ws.push(w)[0] == w);
        assert(ws.push(w).skip(1) =~= Seq::<u32>::empty());
        assert(step_write_burst(m, ws) == m);
        assert(burst_write_allowed(m, ws));
        assert(step_write_burst(m, ws.push(w)) == step_write_burst(
            step_push(m, w),
            ws.push(w).skip(1),
        ));
        assert(step_write_burst(step_push(m, w), ws.push(w).skip(1)) == step_push(m, w));
        assert(burst_write_allowed(step_push(m, w), ws.push(w).skip(1)));
        assert(burst_write_allowed(m, ws.push(w)) == (m.wr_active && m.wr_left > 0));
    } else {
        assert(ws.push(w)[0] == ws[0]);
        assert(ws.push(w).skip(1) =~= ws.skip(1).push(w));
        let m1 = step_push(m, ws[0]);
        lemma_burst_snoc(m1, ws.skip(1), w);
        assert(step_write_burst(m, ws.push(w)) == step_write_burst(m1, ws.skip(1).push(w)));
        assert(step_write_burst(m, ws) == step_write_burst(m1, ws.skip(1)));
        assert(burst_write_allowed(m, ws.push(w)) == (m.wr_active && m.wr_left > 0
            && burst_write_allowed(m1, ws.skip(1).push(w))));
        assert(burst_write_allowed(m, ws) == (m.wr_active && m.wr_left > 0
            && burst_write_allowed(m1, ws.skip(1))));
    }
}

} // verus!
