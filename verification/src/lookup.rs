//! The names alone: for each address, the functions it lies in.

use crate::addr::Addr;
use crate::context::Context;
use crate::dwarf::Dwarf;
use crate::error::Error;
use crate::text::{join, joined, views};
use crate::translate::{rebased, translate};
use vstd::prelude::*;

verus! {

/// Debug information that names the functions of addresses.
pub trait Lookup {
    /// What `lookup` gives.
    spec fn looked_up(&self, vmaddr: Addr, context: &Context) -> Result<Seq<Seq<char>>, Error>;

    /// The names of the functions that each address of `context` lies in,
    /// one text for each address, for an image that lies at `vmaddr`.
    fn lookup(&self, vmaddr: Addr, context: &Context) -> (r: Result<Vec<String>, Error>)
        ensures
            match r {
                Ok(names) => self.looked_up(vmaddr, context) == Ok::<Seq<Seq<char>>, Error>(
                    views(names@),
                ),
                Err(e) => self.looked_up(vmaddr, context) == Err::<Seq<Seq<char>>, Error>(e),
            },
    ;
}

impl Dwarf {
    /// The names of the frames of `addr`, innermost first, one on each line.
    pub open spec fn names_at(&self, addr: Addr, expand_inlined: bool) -> Result<Seq<char>, Error> {
        match self.unit_for(addr) {
            Err(e) => Err(e),
            Ok(unit) => match unit.frames(addr@, expand_inlined) {
                None => Err(Error::AddrNotFound(addr)),
                Some(frames) => match self.names_of(addr, unit, frames) {
                    Err(e) => Err(e),
                    Ok(names) => Ok(joined(names.reverse(), "\n"@)),
                },
            },
        }
    }

    /// The names at each of `addrs`, in order; the first address whose
    /// names cannot be had fails them all.
    pub open spec fn names_at_all(&self, addrs: Seq<Addr>, expand_inlined: bool) -> Result<
        Seq<Seq<char>>,
        Error,
    >
        decreases addrs.len(),
    {
        if addrs.len() == 0 {
            Ok(Seq::empty())
        } else {
            match self.names_at_all(addrs.drop_last(), expand_inlined) {
                Err(e) => Err(e),
                Ok(front) => match self.names_at(addrs.last(), expand_inlined) {
                    Err(e) => Err(e),
                    Ok(names) => Ok(front.push(names)),
                },
            }
        }
    }

    /// The names of the frames of `addr`, innermost first, one on each
    /// line: that of the subprogram alone unless `expand_inlined`.
    pub fn lookup_addr(&self, addr: Addr, expand_inlined: bool) -> (r: Result<String, Error>)
        ensures
            match r {
                Ok(names) => self.names_at(addr, expand_inlined) == Ok::<Seq<char>, Error>(names@),
                Err(e) => self.names_at(addr, expand_inlined) == Err::<Seq<char>, Error>(e),
            },
    {
        let unit = match self.unit_from_addr(addr) {
            Ok(unit) => unit,
            Err(e) => {
                return Err(e);
            },
        };
        let frames = match unit.frames_for(addr, expand_inlined) {
            Some(frames) => frames,
            None => {
                return Err(Error::AddrNotFound(addr));
            },
        };
        let mut names = match self.frame_names(addr, unit, &frames) {
            Ok(names) => names,
            Err(e) => {
                return Err(e);
            },
        };
        let ghost all = views(names@);
        let mut inner_first: Vec<String> = Vec::new();
        while names.len() > 0
            invariant
                all.len() == names@.len() + inner_first@.len(),
                forall|k: int| 0 <= k < names@.len() ==> (#[trigger] names@[k])@ == all[k],
                forall|k: int|
                    0 <= k < inner_first@.len() ==> (#[trigger] inner_first@[k])@ == all[all.len()
                        - 1 - k],
            decreases names.len(),
        {
            let name = names.pop().unwrap();
            inner_first.push(name);
        }
        assert(views(inner_first@) =~= all.reverse());
        Ok(join(&inner_first, "\n"))
    }
}

proof fn lemma_names_at_prefix_err(dwarf: Dwarf, addrs: Seq<Addr>, expand_inlined: bool, n: int)
    requires
        0 <= n <= addrs.len(),
    ensures
        dwarf.names_at_all(addrs.take(n), expand_inlined) matches Err(e) ==> dwarf.names_at_all(
            addrs,
            expand_inlined,
        ) == Err::<Seq<Seq<char>>, Error>(e),
    decreases addrs.len() - n,
{
    if n < addrs.len() {
        lemma_names_at_prefix_err(dwarf, addrs, expand_inlined, n + 1);
        assert(addrs.take(n + 1).drop_last() =~= addrs.take(n));
    } else {
        assert(addrs.take(n) =~= addrs);
    }
}

impl Lookup for Dwarf {
    /// The addresses that `context` gives one by one, seen from the
    /// image at `vmaddr`, each with the names of its frames.
    open spec fn looked_up(&self, vmaddr: Addr, context: &Context) -> Result<Seq<Seq<char>>, Error> {
        let observed = match context.addrs {
            Some(addrs) => addrs@,
            None => Seq::empty(),
        };
        match rebased(observed, context.base_addr, Ok(vmaddr)) {
            Err(e) => Err(e),
            Ok(addrs) => self.names_at_all(addrs, context.include_inlined),
        }
    }

    fn lookup(&self, vmaddr: Addr, context: &Context) -> (r: Result<Vec<String>, Error>) {
        let none: Vec<Addr> = Vec::new();
        let observed: &Vec<Addr> = match &context.addrs {
            Some(addrs) => addrs,
            None => &none,
        };
        let addrs = match translate(observed, &context.base_addr, Ok(vmaddr)) {
            Ok(addrs) => addrs,
            Err(e) => {
                return Err(e);
            },
        };
        let mut out: Vec<String> = Vec::new();
        let mut i: usize = 0;
        assert(views(out@) =~= Seq::<Seq<char>>::empty());
        assert(addrs@.take(0).len() == 0);
        while i < addrs.len()
            invariant
                i <= addrs.len(),
                self.looked_up(vmaddr, context) == self.names_at_all(
                    addrs@,
                    context.include_inlined,
                ),
                self.names_at_all(addrs@.take(i as int), context.include_inlined) == Ok::<
                    Seq<Seq<char>>,
                    Error,
                >(views(out@)),
            decreases addrs.len() - i,
        {
            proof {
                assert(addrs@.take(i + 1).drop_last() =~= addrs@.take(i as int));
                lemma_names_at_prefix_err(*self, addrs@, context.include_inlined, i + 1);
            }
            let ghost before = views(out@);
            match self.lookup_addr(addrs[i], context.include_inlined) {
                Ok(names) => {
                    out.push(names);
                    assert(views(out@) =~= before.push(names@));
                },
                Err(e) => {
                    return Err(e);
                },
            }
            i = i + 1;
        }
        assert(addrs@.take(i as int) =~= addrs@);
        Ok(out)
    }
}

} // verus!
