//! The reassembly accumulator: folds the classified record stream into
//! per-packet buffers and says what to emit at each step.
//!
//! Consecutive hex-dump rows are buffered into one hex blob and one
//! approximation blob.  The arrival of a header line (or the end of the
//! stream) is the only boundary signal: it flushes the buffers.  A
//! segment header also announces the host pair, with a slot from the
//! color table for each endpoint.  Emitting is the caller's business:
//! each step hands back what to print, a flush first, then a banner.

use crate::colors::{color_slot, table_after, ColorTable};
use crate::grammar::{HostPortV, LineV, TcpdumpLine, SP};
use vstd::prelude::*;

verus! {

/// The accumulator: the two packet buffers and the color table.
pub struct Accumulator {
    /// Hex columns of the packet being accumulated, each preceded by a
    /// separating space.
    pub hex: Vec<u8>,
    /// Printable approximations of the same rows, appended bare.
    pub approximation: Vec<u8>,
    /// Hosts seen so far, in first-seen order.
    pub colors: ColorTable,
}

/// Mathematical image of an `Accumulator`.
pub struct AccumV {
    pub hex: Seq<u8>,
    pub approximation: Seq<u8>,
    pub colors: Seq<Seq<u8>>,
}

impl View for Accumulator {
    type V = AccumV;

    open spec fn view(&self) -> AccumV {
        AccumV { hex: self.hex@, approximation: self.approximation@, colors: self.colors@ }
    }
}

/// A completed packet handed out by a flush: the two accumulated
/// blobs, for the formatter to choose from.
pub struct Flushed {
    pub approximation: Vec<u8>,
    pub hex: Vec<u8>,
}

/// Mathematical image of a `Flushed`.
pub struct FlushedV {
    pub approximation: Seq<u8>,
    pub hex: Seq<u8>,
}

impl View for Flushed {
    type V = FlushedV;

    open spec fn view(&self) -> FlushedV {
        FlushedV { approximation: self.approximation@, hex: self.hex@ }
    }
}

/// A host-pair announcement: both hosts with their palette slots.
pub struct Banner {
    pub source_host: Vec<u8>,
    pub source_slot: usize,
    pub dest_host: Vec<u8>,
    pub dest_slot: usize,
}

/// Mathematical image of a `Banner`.
pub struct BannerV {
    pub source_host: Seq<u8>,
    pub source_slot: int,
    pub dest_host: Seq<u8>,
    pub dest_slot: int,
}

impl View for Banner {
    type V = BannerV;

    open spec fn view(&self) -> BannerV {
        BannerV {
            source_host: self.source_host@,
            source_slot: self.source_slot as int,
            dest_host: self.dest_host@,
            dest_slot: self.dest_slot as int,
        }
    }
}

/// What one step of the accumulator emits: a flushed packet, a banner,
/// both (the flush always precedes the banner), or nothing.
pub struct Output {
    pub flushed: Option<Flushed>,
    pub banner: Option<Banner>,
}

/// Mathematical image of an `Output`.
pub struct OutputV {
    pub flushed: Option<FlushedV>,
    pub banner: Option<BannerV>,
}

impl View for Output {
    type V = OutputV;

    open spec fn view(&self) -> OutputV {
        OutputV {
            flushed: match self.flushed {
                Some(f) => Some(f@),
                None => None,
            },
            banner: match self.banner {
                Some(b) => Some(b@),
                None => None,
            },
        }
    }
}

/// The accumulator state after folding in one record.  A hex-dump row
/// appends to both buffers (a separating space before its hex bytes,
/// nothing before its approximation bytes); a header line clears
/// whatever a flush handed out; a segment header also enters both
/// hosts, source first, into the color table.
pub open spec fn step_state(a: AccumV, r: LineV) -> AccumV {
    match r {
        LineV::Data(hx, ap) => AccumV {
            hex: a.hex + seq![SP] + hx,
            approximation: a.approximation + ap,
            colors: a.colors,
        },
        LineV::Ip(_, _) => AccumV {
            hex: Seq::<u8>::empty(),
            approximation: if a.hex.len() > 0 {
                Seq::<u8>::empty()
            } else {
                a.approximation
            },
            colors: a.colors,
        },
        LineV::Tcp(src, dst, _) => AccumV {
            hex: Seq::<u8>::empty(),
            approximation: if a.hex.len() > 0 {
                Seq::<u8>::empty()
            } else {
                a.approximation
            },
            colors: table_after(table_after(a.colors, src.host), dst.host),
        },
    }
}

/// What folding in one record emits.  A non-data record arriving over a
/// non-empty hex buffer flushes it; a segment header always announces
/// its host pair, the source host's slot taken against the table as it
/// stood, the destination host's against the table with the source
/// already entered.
pub open spec fn step_output(a: AccumV, r: LineV) -> OutputV {
    OutputV {
        flushed: if a.hex.len() > 0 && !(r is Data) {
            Some(FlushedV { approximation: a.approximation, hex: a.hex })
        } else {
            None
        },
        banner: match r {
            LineV::Tcp(src, dst, _) => Some(
                BannerV {
                    source_host: src.host,
                    source_slot: color_slot(a.colors, src.host),
                    dest_host: dst.host,
                    dest_slot: color_slot(table_after(a.colors, src.host), dst.host),
                },
            ),
            _ => None,
        },
    }
}

/// Law: starting from empty buffers, a segment header, then three
/// hex-dump rows, then another segment header flush exactly once — at
/// the second header — and what is flushed is the three hex columns in
/// arrival order, each preceded by its separating space, beside the
/// three approximations joined bare.
pub proof fn lemma_coalescing(
    a0: AccumV,
    src: HostPortV,
    dst: HostPortV,
    info: Seq<u8>,
    h1: Seq<u8>,
    p1: Seq<u8>,
    h2: Seq<u8>,
    p2: Seq<u8>,
    h3: Seq<u8>,
    p3: Seq<u8>,
    src2: HostPortV,
    dst2: HostPortV,
    info2: Seq<u8>,
)
    requires
        a0.hex.len() == 0,
        a0.approximation.len() == 0,
    ensures
        ({
            let a1 = step_state(a0, LineV::Tcp(src, dst, info));
            let a2 = step_state(a1, LineV::Data(h1, p1));
            let a3 = step_state(a2, LineV::Data(h2, p2));
            let a4 = step_state(a3, LineV::Data(h3, p3));
            &&& step_output(a0, LineV::Tcp(src, dst, info)).flushed is None
            &&& step_output(a1, LineV::Data(h1, p1)).flushed is None
            &&& step_output(a2, LineV::Data(h2, p2)).flushed is None
            &&& step_output(a3, LineV::Data(h3, p3)).flushed is None
            &&& step_output(a4, LineV::Tcp(src2, dst2, info2)).flushed == Some(
                FlushedV {
                    approximation: p1 + p2 + p3,
                    hex: seq![SP] + h1 + seq![SP] + h2 + seq![SP] + h3,
                },
            )
        }),
{
    let a1 = step_state(a0, LineV::Tcp(src, dst, info));
    let a2 = step_state(a1, LineV::Data(h1, p1));
    let a3 = step_state(a2, LineV::Data(h2, p2));
    let a4 = step_state(a3, LineV::Data(h3, p3));
    assert(a1.hex =~= Seq::<u8>::empty());
    assert(a2.hex =~= seq![SP] + h1);
    assert(a3.hex =~= seq![SP] + h1 + seq![SP] + h2);
    assert(a4.hex =~= seq![SP] + h1 + seq![SP] + h2 + seq![SP] + h3);
    assert(a2.approximation =~= p1);
    assert(a3.approximation =~= p1 + p2);
    assert(a4.approximation =~= p1 + p2 + p3);
}

/// Append `src` to `dst`.
fn append_bytes(dst: &mut Vec<u8>, src: &[u8])
    ensures
        final(dst)@ == old(dst)@ + src@,
{
    let n = src.len();
    let mut k: usize = 0;
    while k < n
        invariant
            0 <= k <= n == src@.len(),
            dst@ == old(dst)@ + src@.subrange(0, k as int),
        decreases n - k,
    {
        dst.push(src[k]);
        proof {
            assert(old(dst)@ + src@.subrange(0, k as int) + seq![src@[k as int]] =~= old(dst)@
                + src@.subrange(0, k + 1));
        }
        k = k + 1;
    }
    proof {
        assert(src@.subrange(0, n as int) =~= src@);
    }
}

impl Accumulator {
    /// A fresh accumulator: both buffers empty, no host seen.
    pub fn new() -> (a: Accumulator)
        ensures
            a@.hex == Seq::<u8>::empty(),
            a@.approximation == Seq::<u8>::empty(),
            a@.colors == Seq::<Seq<u8>>::empty(),
    {
        Accumulator {
            hex: Vec::new(),
            approximation: Vec::new(),
            colors: ColorTable::new(),
        }
    }

    /// Flush whatever is pending.  With a non-empty hex buffer, hand
    /// out both blobs exactly once and clear both buffers; with an
    /// empty one, do nothing.  The color table is never touched.  At
    /// the end of the stream this is the final flush, and no banner
    /// follows it.
    pub fn finish(&mut self) -> (f: Option<Flushed>)
        ensures
            final(self)@.colors == old(self)@.colors,
            final(self)@.hex == Seq::<u8>::empty(),
            old(self)@.hex.len() > 0 ==> (f matches Some(fl) && fl@.approximation == old(
                self,
            )@.approximation && fl@.hex == old(self)@.hex && final(self)@.approximation
                == Seq::<u8>::empty()),
            old(self)@.hex.len() == 0 ==> f is None && final(self)@ == old(self)@,
    {
        if self.hex.len() > 0 {
            let hex = vstd::slice::slice_to_vec(self.hex.as_slice());
            let approximation = vstd::slice::slice_to_vec(self.approximation.as_slice());
            self.hex.clear();
            self.approximation.clear();
            Some(Flushed { approximation, hex })
        } else {
            None
        }
    }

    /// Fold one classified record into the accumulator and say what to
    /// emit: `step_state` describes the new state, `step_output` the
    /// emission.  A flush, when present, precedes the banner.
    pub fn write_out(&mut self, parsed: &TcpdumpLine) -> (out: Output)
        ensures
            final(self)@ == step_state(old(self)@, parsed@),
            out@ == step_output(old(self)@, parsed@),
    {
        match parsed {
            TcpdumpLine::Data(hx, ap) => {
                self.hex.push(SP);
                append_bytes(&mut self.hex, hx.as_slice());
                append_bytes(&mut self.approximation, ap.as_slice());
                proof {
                    assert(old(self)@.hex.push(SP) =~= old(self)@.hex + seq![SP]);
                }
                Output { flushed: None, banner: None }
            }
            TcpdumpLine::Ip(_, _) => {
                let flushed = self.finish();
                Output { flushed, banner: None }
            }
            TcpdumpLine::Tcp(src, dst, _) => {
                let flushed = self.finish();
                let source_slot = self.colors.color_of(src.host.as_slice());
                let dest_slot = self.colors.color_of(dst.host.as_slice());
                let banner = Banner {
                    source_host: vstd::slice::slice_to_vec(src.host.as_slice()),
                    source_slot,
                    dest_host: vstd::slice::slice_to_vec(dst.host.as_slice()),
                    dest_slot,
                };
                Output { flushed, banner: Some(banner) }
            }
        }
    }
}

} // verus!
