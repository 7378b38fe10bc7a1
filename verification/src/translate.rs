//! From the addresses that were observed to addresses of the image.

use crate::addr::{parsed, Addr};
use crate::context::{BaseMode, Context};
use crate::error::Error;
use crate::image::File;
use vstd::prelude::*;
use vstd::slice::slice_subrange;

verus! {

/// The address that a piece of text spells, if it spells one.
pub open spec fn piece_addr(piece: Seq<u8>) -> Seq<Addr> {
    match parsed(piece) {
        Ok(a) => seq![a],
        Err(_) => Seq::empty(),
    }
}

/// The addresses among the pieces of `content` that spaces part, read
/// from position `at` on, where the piece being read starts at `start`.
/// A piece that spells no address is passed over.
pub open spec fn addrs_from(content: Seq<u8>, start: int, at: int) -> Seq<Addr>
    decreases content.len() - at,
{
    if at < 0 || start < 0 || start > at {
        Seq::empty()
    } else if at >= content.len() {
        piece_addr(content.subrange(start, content.len() as int))
    } else if content[at] == 0x20 {
        piece_addr(content.subrange(start, at)) + addrs_from(content, at + 1, at + 1)
    } else {
        addrs_from(content, start, at + 1)
    }
}

/// The addresses that `content` lists, parted by spaces.
pub open spec fn addrs_in(content: Seq<u8>) -> Seq<Addr> {
    addrs_from(content, 0, 0)
}

/// By how much an observed address differs from the image's: the way
/// from the image's address to the load address, a slide, or, for
/// offsets, the image's address the other way.
pub open spec fn base_delta(mode: BaseMode, vmaddr: Result<Addr, Error>) -> Result<int, Error> {
    match mode {
        BaseMode::LoadAddr(load) => match vmaddr {
            Err(e) => Err(e),
            Ok(v) => if load@ < v@ {
                Err(Error::InvalidLoadAddress(load))
            } else {
                Ok(-(load@ - v@))
            },
        },
        BaseMode::Slide(slide) => Ok(-slide@),
        BaseMode::Offset => match vmaddr {
            Err(e) => Err(e),
            Ok(v) => Ok(v@),
        },
    }
}

/// An observed address moved by `delta`, unless that leaves 64 bits.
pub open spec fn translated(addr: Addr, delta: int) -> Result<Addr, Error> {
    if 0 <= addr@ + delta <= u64::MAX {
        Ok(Addr((addr@ + delta) as u64))
    } else {
        Err(Error::InvalidAddress(addr))
    }
}

/// The observed addresses, each moved by `delta`; the first that leaves
/// 64 bits fails them all.
pub open spec fn translated_all(addrs: Seq<Addr>, delta: int) -> Result<Seq<Addr>, Error>
    decreases addrs.len(),
{
    if addrs.len() == 0 {
        Ok(Seq::empty())
    } else {
        match translated_all(addrs.drop_last(), delta) {
            Err(e) => Err(e),
            Ok(front) => match translated(addrs.last(), delta) {
                Err(e) => Err(e),
                Ok(a) => Ok(front.push(a)),
            },
        }
    }
}

/// The addresses that a run is to resolve, as observed: those of the
/// address file's content where the run names such a file, else those
/// given one by one.
pub open spec fn observed(ctx: Context, input: Seq<u8>) -> Result<Seq<Addr>, Error> {
    if ctx.input_addr_file is Some {
        Ok(addrs_in(input))
    } else {
        match ctx.addrs {
            Some(addrs) => Ok(addrs@),
            None => Err(Error::NoInputAddress),
        }
    }
}

/// The observed addresses `addrs` as addresses of the image at `vmaddr`.
pub open spec fn rebased(addrs: Seq<Addr>, mode: BaseMode, vmaddr: Result<Addr, Error>) -> Result<
    Seq<Addr>,
    Error,
> {
    match base_delta(mode, vmaddr) {
        Err(e) => Err(e),
        Ok(delta) => translated_all(addrs, delta),
    }
}

/// The addresses of the image that a run is to resolve.
pub open spec fn image_addrs(obj: File, ctx: Context, input: Seq<u8>) -> Result<Seq<Addr>, Error> {
    match observed(ctx, input) {
        Err(e) => Err(e),
        Ok(addrs) => rebased(addrs, ctx.base_addr, obj.text_address()),
    }
}

/// A distance and its direction.
struct Delta {
    back: bool,
    by: u64,
}

impl Delta {
    spec fn value(&self) -> int {
        if self.back {
            -(self.by as int)
        } else {
            self.by as int
        }
    }

    fn apply(&self, addr: Addr) -> (r: Result<Addr, Error>)
        ensures
            r == translated(addr, self.value()),
    {
        let moved = if self.back {
            addr.checked_sub(Addr(self.by))
        } else {
            addr.checked_add(Addr(self.by))
        };
        match moved {
            Some(a) => Ok(a),
            None => Err(Error::InvalidAddress(addr)),
        }
    }
}

fn delta_of(mode: &BaseMode, vmaddr: Result<Addr, Error>) -> (r: Result<Delta, Error>)
    ensures
        match r {
            Ok(d) => base_delta(*mode, vmaddr) == Ok::<int, Error>(d.value()),
            Err(e) => base_delta(*mode, vmaddr) == Err::<int, Error>(e),
        },
{
    match mode {
        BaseMode::LoadAddr(load) => {
            let vmaddr = match vmaddr {
                Ok(v) => v,
                Err(e) => {
                    return Err(e);
                },
            };
            match load.checked_sub(vmaddr) {
                Some(d) => Ok(Delta { back: true, by: d.0 }),
                None => Err(Error::InvalidLoadAddress(*load)),
            }
        },
        BaseMode::Slide(slide) => Ok(Delta { back: true, by: slide.0 }),
        BaseMode::Offset => match vmaddr {
            Ok(v) => Ok(Delta { back: false, by: v.0 }),
            Err(e) => Err(e),
        },
    }
}

/// Once the first addresses cannot all be moved, none of the lists that
/// start with them can.
proof fn lemma_translated_prefix_err(addrs: Seq<Addr>, delta: int, n: int)
    requires
        0 <= n <= addrs.len(),
    ensures
        translated_all(addrs.take(n), delta) matches Err(e) ==> translated_all(addrs, delta)
            == Err::<Seq<Addr>, Error>(e),
    decreases addrs.len() - n,
{
    if n < addrs.len() {
        lemma_translated_prefix_err(addrs, delta, n + 1);
        assert(addrs.take(n + 1).drop_last() =~= addrs.take(n));
    } else {
        assert(addrs.take(n) =~= addrs);
    }
}

/// The addresses that `content` lists, parted by spaces. A piece that
/// spells no address is passed over.
pub fn parse_addrs(content: &[u8]) -> (r: Vec<Addr>)
    ensures
        r@ == addrs_in(content@),
{
    let mut out: Vec<Addr> = Vec::new();
    let mut start: usize = 0;
    let mut at: usize = 0;
    while at < content.len()
        invariant
            start <= at <= content@.len(),
            out@ + addrs_from(content@, start as int, at as int) == addrs_in(content@),
        decreases content@.len() - at,
    {
        if content[at] == 0x20 {
            let piece = slice_subrange(content, start, at);
            let ghost before = out@;
            if let Ok(a) = Addr::parse_bytes(piece) {
                out.push(a);
            }
            assert(out@ =~= before + piece_addr(content@.subrange(start as int, at as int)));
            assert(out@ + addrs_from(content@, at + 1, at + 1) =~= before + addrs_from(
                content@,
                start as int,
                at as int,
            ));
            start = at + 1;
        }
        at = at + 1;
    }
    let piece = slice_subrange(content, start, at);
    let ghost before = out@;
    if let Ok(a) = Addr::parse_bytes(piece) {
        out.push(a);
    }
    assert(out@ =~= before + piece_addr(content@.subrange(start as int, at as int)));
    out
}

/// The observed addresses `addrs` as addresses of the image at `vmaddr`:
/// each moved by what `mode` says.
pub fn translate(addrs: &Vec<Addr>, mode: &BaseMode, vmaddr: Result<Addr, Error>) -> (r: Result<
    Vec<Addr>,
    Error,
>)
    ensures
        match r {
            Ok(moved) => rebased(addrs@, *mode, vmaddr) == Ok::<Seq<Addr>, Error>(moved@),
            Err(e) => rebased(addrs@, *mode, vmaddr) == Err::<Seq<Addr>, Error>(e),
        },
{
    let delta = match delta_of(mode, vmaddr) {
        Ok(delta) => delta,
        Err(e) => {
            return Err(e);
        },
    };
    let mut out: Vec<Addr> = Vec::new();
    let mut i: usize = 0;
    while i < addrs.len()
        invariant
            i <= addrs.len(),
            rebased(addrs@, *mode, vmaddr) == translated_all(addrs@, delta.value()),
            translated_all(addrs@.take(i as int), delta.value()) == Ok::<Seq<Addr>, Error>(out@),
        decreases addrs.len() - i,
    {
        proof {
            assert(addrs@.take(i + 1).drop_last() =~= addrs@.take(i as int));
            lemma_translated_prefix_err(addrs@, delta.value(), i + 1);
        }
        match delta.apply(addrs[i]) {
            Ok(a) => {
                out.push(a);
            },
            Err(e) => {
                return Err(e);
            },
        }
        i = i + 1;
    }
    assert(addrs@.take(i as int) =~= addrs@);
    Ok(out)
}

/// The addresses of the image that a run is to resolve: the observed
/// ones, each moved by what the base of the run says. `input` is the
/// content of the address file, read where the run names one.
pub fn compute_addrs(obj: &File, ctx: &Context, input: &[u8]) -> (r: Result<Vec<Addr>, Error>)
    ensures
        match r {
            Ok(addrs) => image_addrs(*obj, *ctx, input@) == Ok::<Seq<Addr>, Error>(addrs@),
            Err(e) => image_addrs(*obj, *ctx, input@) == Err::<Seq<Addr>, Error>(e),
        },
{
    let from_file: Vec<Addr>;
    let addrs: &Vec<Addr> = if ctx.input_addr_file.is_some() {
        from_file = parse_addrs(input);
        &from_file
    } else {
        match &ctx.addrs {
            Some(addrs) => addrs,
            None => {
                return Err(Error::NoInputAddress);
            },
        }
    };
    translate(addrs, &ctx.base_addr, obj.vmaddr())
}

/// Translation undone gives the observed address back: an address that
/// translates lies as far from its translation as the base says, so that
/// the same base and the same observed address lead to one address of the
/// image and to no other.
pub proof fn lemma_translation_round_trip(mode: BaseMode, vmaddr: Result<Addr, Error>, addr: Addr)
    ensures
        match base_delta(mode, vmaddr) {
            Ok(delta) => match translated(addr, delta) {
                Ok(image) => image@ - delta == addr@ && translated(image, -delta) == Ok::<
                    Addr,
                    Error,
                >(addr),
                Err(e) => e == Error::InvalidAddress(addr),
            },
            Err(e) => true,
        },
{
}

/// A load address below the image's own address is invalid.
pub proof fn lemma_load_below_image(load: Addr, vmaddr: Addr)
    requires
        load@ < vmaddr@,
    ensures
        base_delta(BaseMode::LoadAddr(load), Ok(vmaddr)) == Err::<int, Error>(
            Error::InvalidLoadAddress(load),
        ),
{
}

} // verus!
