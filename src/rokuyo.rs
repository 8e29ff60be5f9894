use vstd::prelude::*;
use crate::error::TempoError;

verus! {

/// The six labels of the rokuyo cycle.
#[derive(Debug, Clone, Copy, PartialEq, Eq, Structural, PartialOrd, Ord)]
pub enum Rokuyo {
    Taian,
    Shakku,
    Sensho,
    Tomobiki,
    Sempu,
    Butsumetsu,
}

/// Position of each label in the cycle, starting from Sensho.
pub open spec fn rokuyo_index(r: Rokuyo) -> nat {
    match r {
        Rokuyo::Sensho => 0,
        Rokuyo::Tomobiki => 1,
        Rokuyo::Sempu => 2,
        Rokuyo::Butsumetsu => 3,
        Rokuyo::Taian => 4,
        Rokuyo::Shakku => 5,
    }
}

/// The label at a position of the cycle.
pub open spec fn rokuyo_at(i: nat) -> Rokuyo
    recommends
        i < 6,
{
    if i == 0 {
        Rokuyo::Sensho
    } else if i == 1 {
        Rokuyo::Tomobiki
    } else if i == 2 {
        Rokuyo::Sempu
    } else if i == 3 {
        Rokuyo::Butsumetsu
    } else if i == 4 {
        Rokuyo::Taian
    } else {
        Rokuyo::Shakku
    }
}

/// The Japanese name of each label.
pub open spec fn japanese_name(r: Rokuyo) -> Seq<char> {
    match r {
        Rokuyo::Taian => "大安"@,
        Rokuyo::Shakku => "赤口"@,
        Rokuyo::Sensho => "先勝"@,
        Rokuyo::Tomobiki => "友引"@,
        Rokuyo::Sempu => "先負"@,
        Rokuyo::Butsumetsu => "仏滅"@,
    }
}

impl Rokuyo {
    /// The Japanese name of the label.
    pub fn to_japanese(self) -> (r: &'static str)
        ensures
            r@ == japanese_name(self),
    {
        match self {
            Rokuyo::Taian => "大安",
            Rokuyo::Shakku => "赤口",
            Rokuyo::Sensho => "先勝",
            Rokuyo::Tomobiki => "友引",
            Rokuyo::Sempu => "先負",
            Rokuyo::Butsumetsu => "仏滅",
        }
    }

    /// Position of the label in the cycle (Sensho is 0, Shakku is 5).
    pub fn to_number(self) -> (r: usize)
        ensures
            r == rokuyo_index(self),
            r < 6,
    {
        match self {
            Rokuyo::Sensho => 0,
            Rokuyo::Tomobiki => 1,
            Rokuyo::Sempu => 2,
            Rokuyo::Butsumetsu => 3,
            Rokuyo::Taian => 4,
            Rokuyo::Shakku => 5,
        }
    }

    /// The label at a position of the cycle; fails for positions of 6 and more.
    pub fn from_number(index: usize) -> (r: Result<Rokuyo, TempoError>)
        ensures
            index < 6 ==> r == Ok::<Rokuyo, TempoError>(rokuyo_at(index as nat)),
            index >= 6 ==> r == Err::<Rokuyo, TempoError>(TempoError::OutOfRokuyoIndex),
    {
        match index {
            0 => Ok(Rokuyo::Sensho),
            1 => Ok(Rokuyo::Tomobiki),
            2 => Ok(Rokuyo::Sempu),
            3 => Ok(Rokuyo::Butsumetsu),
            4 => Ok(Rokuyo::Taian),
            5 => Ok(Rokuyo::Shakku),
            _ => Err(TempoError::OutOfRokuyoIndex),
        }
    }
}

} // verus!
