//! The instruments of the sleeve and tables keyed by them.
use vstd::prelude::*;

verus! {

/// The futures that the sleeve trades.
#[derive(Debug, Clone, Copy, PartialEq, Eq, Hash, Structural)]
pub enum FutureInstrument {
    /// Micro E-mini S&P 500.
    Mes,
    /// Micro E-mini Nasdaq 100.
    Mnq,
    /// Euro FX future.
    SixE,
}

/// Number of instruments.
pub const INSTRUMENT_COUNT: usize = 3;

impl FutureInstrument {
    /// The instruments in the order in which the sleeve always walks them.
    pub open spec fn order() -> Seq<FutureInstrument> {
        seq![FutureInstrument::Mes, FutureInstrument::Mnq, FutureInstrument::SixE]
    }

    /// The place of the instrument in [`Self::order`].
    pub open spec fn rank(self) -> int {
        match self {
            FutureInstrument::Mes => 0,
            FutureInstrument::Mnq => 1,
            FutureInstrument::SixE => 2,
        }
    }

    /// The instrument at place `index` of [`Self::order`].
    pub fn at(index: usize) -> (inst: FutureInstrument)
        requires
            index < INSTRUMENT_COUNT,
        ensures
            inst == Self::order()[index as int],
    {
        if index == 0 {
            FutureInstrument::Mes
        } else if index == 1 {
            FutureInstrument::Mnq
        } else {
            FutureInstrument::SixE
        }
    }
}

/// A table with at most one entry per instrument, walked in the fixed order of
/// [`FutureInstrument::order`].
#[derive(Debug, Clone)]
pub struct InstrumentMap<T> {
    pub mes: Option<T>,
    pub mnq: Option<T>,
    pub sixe: Option<T>,
}

impl<T> InstrumentMap<T> {
    /// The entry of `inst`, if there is one.
    pub open spec fn entry(&self, inst: FutureInstrument) -> Option<T> {
        match inst {
            FutureInstrument::Mes => self.mes,
            FutureInstrument::Mnq => self.mnq,
            FutureInstrument::SixE => self.sixe,
        }
    }

    /// Number of entries.
    pub open spec fn spec_len(&self) -> nat {
        (if self.mes is Some {
            1nat
        } else {
            0nat
        }) + (if self.mnq is Some {
            1nat
        } else {
            0nat
        }) + (if self.sixe is Some {
            1nat
        } else {
            0nat
        })
    }

    /// The empty table.
    pub fn new() -> (m: Self)
        ensures
            forall|inst: FutureInstrument| m.entry(inst) is None,
    {
        InstrumentMap { mes: None, mnq: None, sixe: None }
    }

    /// Sets the entry of `inst` and hands back the entry it had.
    pub fn insert(&mut self, inst: FutureInstrument, value: T) -> (previous: Option<T>)
        ensures
            final(self).entry(inst) == Some(value),
            forall|other: FutureInstrument|
                other != inst ==> final(self).entry(other) == old(self).entry(other),
            previous == old(self).entry(inst),
    {
        match inst {
            FutureInstrument::Mes => {
                let previous = self.mes.take();
                self.mes = Some(value);
                previous
            },
            FutureInstrument::Mnq => {
                let previous = self.mnq.take();
                self.mnq = Some(value);
                previous
            },
            FutureInstrument::SixE => {
                let previous = self.sixe.take();
                self.sixe = Some(value);
                previous
            },
        }
    }

    /// The entry of `inst`, if there is one.
    pub fn get(&self, inst: &FutureInstrument) -> (found: Option<&T>)
        ensures
            found is Some == self.entry(*inst) is Some,
            found is Some ==> *found.unwrap() == self.entry(*inst).unwrap(),
    {
        match inst {
            FutureInstrument::Mes => self.mes.as_ref(),
            FutureInstrument::Mnq => self.mnq.as_ref(),
            FutureInstrument::SixE => self.sixe.as_ref(),
        }
    }

    /// Whether `inst` has an entry.
    pub fn contains_key(&self, inst: &FutureInstrument) -> (r: bool)
        ensures
            r == self.entry(*inst) is Some,
    {
        match inst {
            FutureInstrument::Mes => self.mes.is_some(),
            FutureInstrument::Mnq => self.mnq.is_some(),
            FutureInstrument::SixE => self.sixe.is_some(),
        }
    }

    /// Number of entries.
    pub fn len(&self) -> (n: usize)
        ensures
            n == self.spec_len(),
    {
        let mut n: usize = 0;
        if self.mes.is_some() {
            n = n + 1;
        }
        if self.mnq.is_some() {
            n = n + 1;
        }
        if self.sixe.is_some() {
            n = n + 1;
        }
        n
    }

    /// Whether there is no entry.
    pub fn is_empty(&self) -> (r: bool)
        ensures
            r == (self.spec_len() == 0),
    {
        self.mes.is_none() && self.mnq.is_none() && self.sixe.is_none()
    }
}

/// Symbol and venue under which an instrument trades.
pub open spec fn metadata_of(inst: FutureInstrument) -> (Seq<char>, Seq<char>) {
    match inst {
        FutureInstrument::Mes => ("MES"@, "CME"@),
        FutureInstrument::Mnq => ("MNQ"@, "CME"@),
        FutureInstrument::SixE => ("6E"@, "CME"@),
    }
}

/// Symbol and venue under which an instrument trades.
pub fn instrument_metadata(inst: FutureInstrument) -> (r: (&'static str, &'static str))
    ensures
        (r.0@, r.1@) == metadata_of(inst),
{
    match inst {
        FutureInstrument::Mes => ("MES", "CME"),
        FutureInstrument::Mnq => ("MNQ", "CME"),
        FutureInstrument::SixE => ("6E", "CME"),
    }
}

} // verus!
