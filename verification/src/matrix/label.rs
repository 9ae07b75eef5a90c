//! Labels of the rows of a twelve-tone matrix: a form and a transposition number.

use vstd::prelude::*;

verus! {

/// The four forms of a twelve-tone row.
#[derive(Copy, Clone, Eq, PartialEq, Debug, Hash, Structural)]
pub enum TwelveToneRowForm {
    Prime,
    Retrograde,
    Inversion,
    RetrogradeInversion,
}

impl TwelveToneRowForm {
    /// The form at index `k` of [`Self::ALL`].
    pub open spec fn at(k: int) -> TwelveToneRowForm {
        if k == 0 {
            TwelveToneRowForm::Prime
        } else if k == 1 {
            TwelveToneRowForm::Retrograde
        } else if k == 2 {
            TwelveToneRowForm::Inversion
        } else {
            TwelveToneRowForm::RetrogradeInversion
        }
    }

    /// The four forms: prime, retrograde, inversion, retrograde inversion.
    #[allow(non_snake_case)]
    pub fn ALL() -> (r: [TwelveToneRowForm; 4])
        ensures
            r@ == seq![
                TwelveToneRowForm::Prime,
                TwelveToneRowForm::Retrograde,
                TwelveToneRowForm::Inversion,
                TwelveToneRowForm::RetrogradeInversion,
            ],
    {
        let r = [
            TwelveToneRowForm::Prime,
            TwelveToneRowForm::Retrograde,
            TwelveToneRowForm::Inversion,
            TwelveToneRowForm::RetrogradeInversion,
        ];
        assert(r@ =~= seq![
            TwelveToneRowForm::Prime,
            TwelveToneRowForm::Retrograde,
            TwelveToneRowForm::Inversion,
            TwelveToneRowForm::RetrogradeInversion,
        ]);
        r
    }
}

impl Default for TwelveToneRowForm {
    /// The prime form.
    fn default() -> (r: TwelveToneRowForm)
        ensures
            r == TwelveToneRowForm::Prime,
    {
        TwelveToneRowForm::Prime
    }
}

/// The transposition number of a row, from 0 to 11.
#[derive(Copy, Clone, Eq, PartialEq, Debug, Hash, PartialOrd, Ord, Structural)]
pub struct TwelveToneRowNumber(pub u8);

impl TwelveToneRowNumber {
    /// How many transposition numbers there are.
    pub const COUNT: u8 = 12;

    /// The number `n`, or `None` when `n > 11`.
    pub fn new(n: u8) -> (r: Option<TwelveToneRowNumber>)
        ensures
            r is Some <==> n < 12,
            r matches Some(x) ==> x.0 == n,
    {
        if n < 12 {
            Some(TwelveToneRowNumber(n))
        } else {
            None
        }
    }

    /// The number.
    pub fn get(self) -> (r: u8)
        ensures
            r == self.0,
    {
        self.0
    }
}

impl Default for TwelveToneRowNumber {
    /// The number 0.
    fn default() -> (r: TwelveToneRowNumber)
        ensures
            r.0 == 0,
    {
        TwelveToneRowNumber(0)
    }
}

/// A row label: a form and a transposition number, such as P-0 or RI-5.
#[derive(Copy, Clone, Eq, PartialEq, Debug, Hash, Structural)]
pub struct TwelveToneRowLabel(pub TwelveToneRowForm, pub TwelveToneRowNumber);

/// The label at index `k` of [`TwelveToneRowLabel::all`]: the forms in order, each
/// with the numbers 0 to 11.
pub open spec fn label_at(k: int) -> TwelveToneRowLabel {
    TwelveToneRowLabel(TwelveToneRowForm::at(k / 12), TwelveToneRowNumber((k % 12) as u8))
}

impl TwelveToneRowLabel {
    /// The label of `form` with number `number`, or `None` when `number > 11`.
    pub fn new(form: TwelveToneRowForm, number: u8) -> (r: Option<TwelveToneRowLabel>)
        ensures
            r is Some <==> number < 12,
            r matches Some(l) ==> l.0 == form && l.1.0 == number,
    {
        match TwelveToneRowNumber::new(number) {
            Some(n) => Some(TwelveToneRowLabel(form, n)),
            None => None,
        }
    }

    /// The transposition number.
    pub fn number(&self) -> (r: u8)
        ensures
            r == self.1.0,
    {
        self.1.get()
    }

    /// Every label: prime, retrograde, inversion and retrograde inversion forms,
    /// each numbered 0 to 11.
    pub fn all() -> (r: Vec<TwelveToneRowLabel>)
        ensures
            r@ == Seq::new(48, |k: int| label_at(k)),
    {
        let forms = TwelveToneRowForm::ALL();
        let mut v: Vec<TwelveToneRowLabel> = Vec::new();
        let mut f: usize = 0;
        while f < 4
            invariant
                f <= 4,
                forms@ == seq![
                    TwelveToneRowForm::Prime,
                    TwelveToneRowForm::Retrograde,
                    TwelveToneRowForm::Inversion,
                    TwelveToneRowForm::RetrogradeInversion,
                ],
                v@ == Seq::new((12 * f) as nat, |k: int| label_at(k)),
            decreases 4 - f,
        {
            let mut n: u8 = 0;
            while n < 12
                invariant
                    f < 4,
                    n <= 12,
                    forms@ == seq![
                        TwelveToneRowForm::Prime,
                        TwelveToneRowForm::Retrograde,
                        TwelveToneRowForm::Inversion,
                        TwelveToneRowForm::RetrogradeInversion,
                    ],
                    v@ == Seq::new((12 * f + n) as nat, |k: int| label_at(k)),
                decreases 12 - n,
            {
                let l = TwelveToneRowLabel(forms[f], TwelveToneRowNumber(n));
                proof {
                    let k = 12 * f + n;
                    assert(k / 12 == f && k % 12 == n);
                    assert(forms@[f as int] == TwelveToneRowForm::at(f as int));
                }
                v.push(l);
                assert(v@ =~= Seq::new((12 * f + n + 1) as nat, |k: int| label_at(k)));
                n = n + 1;
            }
            f = f + 1;
        }
        v
    }

    /// The label P-0.
    #[allow(non_snake_case)]
    pub fn P0() -> (r: TwelveToneRowLabel)
        ensures
            r == TwelveToneRowLabel(TwelveToneRowForm::Prime, TwelveToneRowNumber(0)),
    {
        TwelveToneRowLabel(TwelveToneRowForm::Prime, TwelveToneRowNumber(0))
    }

    /// The label P-1.
    #[allow(non_snake_case)]
    pub fn P1() -> (r: TwelveToneRowLabel)
        ensures
            r == TwelveToneRowLabel(TwelveToneRowForm::Prime, TwelveToneRowNumber(1)),
    {
        TwelveToneRowLabel(TwelveToneRowForm::Prime, TwelveToneRowNumber(1))
    }

    /// The label P-2.
    #[allow(non_snake_case)]
    pub fn P2() -> (r: TwelveToneRowLabel)
        ensures
            r == TwelveToneRowLabel(TwelveToneRowForm::Prime, TwelveToneRowNumber(2)),
    {
        TwelveToneRowLabel(TwelveToneRowForm::Prime, TwelveToneRowNumber(2))
    }

    /// The label P-3.
    #[allow(non_snake_case)]
    pub fn P3() -> (r: TwelveToneRowLabel)
        ensures
            r == TwelveToneRowLabel(TwelveToneRowForm::Prime, TwelveToneRowNumber(3)),
    {
        TwelveToneRowLabel(TwelveToneRowForm::Prime, TwelveToneRowNumber(3))
    }

    /// The label P-4.
    #[allow(non_snake_case)]
    pub fn P4() -> (r: TwelveToneRowLabel)
        ensures
            r == TwelveToneRowLabel(TwelveToneRowForm::Prime, TwelveToneRowNumber(4)),
    {
        TwelveToneRowLabel(TwelveToneRowForm::Prime, TwelveToneRowNumber(4))
    }

    /// The label P-5.
    #[allow(non_snake_case)]
    pub fn P5() -> (r: TwelveToneRowLabel)
        ensures
            r == TwelveToneRowLabel(TwelveToneRowForm::Prime, TwelveToneRowNumber(5)),
    {
        TwelveToneRowLabel(TwelveToneRowForm::Prime, TwelveToneRowNumber(5))
    }

    /// The label P-6.
    #[allow(non_snake_case)]
    pub fn P6() -> (r: TwelveToneRowLabel)
        ensures
            r == TwelveToneRowLabel(TwelveToneRowForm::Prime, TwelveToneRowNumber(6)),
    {
        TwelveToneRowLabel(TwelveToneRowForm::Prime, TwelveToneRowNumber(6))
    }

    /// The label P-7.
    #[allow(non_snake_case)]
    pub fn P7() -> (r: TwelveToneRowLabel)
        ensures
            r == TwelveToneRowLabel(TwelveToneRowForm::Prime, TwelveToneRowNumber(7)),
    {
        TwelveToneRowLabel(TwelveToneRowForm::Prime, TwelveToneRowNumber(7))
    }

    /// The label P-8.
    #[allow(non_snake_case)]
    pub fn P8() -> (r: TwelveToneRowLabel)
        ensures
            r == TwelveToneRowLabel(TwelveToneRowForm::Prime, TwelveToneRowNumber(8)),
    {
        TwelveToneRowLabel(TwelveToneRowForm::Prime, TwelveToneRowNumber(8))
    }

    /// The label P-9.
    #[allow(non_snake_case)]
    pub fn P9() -> (r: TwelveToneRowLabel)
        ensures
            r == TwelveToneRowLabel(TwelveToneRowForm::Prime, TwelveToneRowNumber(9)),
    {
        TwelveToneRowLabel(TwelveToneRowForm::Prime, TwelveToneRowNumber(9))
    }

    /// The label P-10.
    #[allow(non_snake_case)]
    pub fn P10() -> (r: TwelveToneRowLabel)
        ensures
            r == TwelveToneRowLabel(TwelveToneRowForm::Prime, TwelveToneRowNumber(10)),
    {
        TwelveToneRowLabel(TwelveToneRowForm::Prime, TwelveToneRowNumber(10))
    }

    /// The label P-11.
    #[allow(non_snake_case)]
    pub fn P11() -> (r: TwelveToneRowLabel)
        ensures
            r == TwelveToneRowLabel(TwelveToneRowForm::Prime, TwelveToneRowNumber(11)),
    {
        TwelveToneRowLabel(TwelveToneRowForm::Prime, TwelveToneRowNumber(11))
    }

    /// The label R-0.
    #[allow(non_snake_case)]
    pub fn R0() -> (r: TwelveToneRowLabel)
        ensures
            r == TwelveToneRowLabel(TwelveToneRowForm::Retrograde, TwelveToneRowNumber(0)),
    {
        TwelveToneRowLabel(TwelveToneRowForm::Retrograde, TwelveToneRowNumber(0))
    }

    /// The label R-1.
    #[allow(non_snake_case)]
    pub fn R1() -> (r: TwelveToneRowLabel)
        ensures
            r == TwelveToneRowLabel(TwelveToneRowForm::Retrograde, TwelveToneRowNumber(1)),
    {
        TwelveToneRowLabel(TwelveToneRowForm::Retrograde, TwelveToneRowNumber(1))
    }

    /// The label R-2.
    #[allow(non_snake_case)]
    pub fn R2() -> (r: TwelveToneRowLabel)
        ensures
            r == TwelveToneRowLabel(TwelveToneRowForm::Retrograde, TwelveToneRowNumber(2)),
    {
        TwelveToneRowLabel(TwelveToneRowForm::Retrograde, TwelveToneRowNumber(2))
    }

    /// The label R-3.
    #[allow(non_snake_case)]
    pub fn R3() -> (r: TwelveToneRowLabel)
        ensures
            r == TwelveToneRowLabel(TwelveToneRowForm::Retrograde, TwelveToneRowNumber(3)),
    {
        TwelveToneRowLabel(TwelveToneRowForm::Retrograde, TwelveToneRowNumber(3))
    }

    /// The label R-4.
    #[allow(non_snake_case)]
    pub fn R4() -> (r: TwelveToneRowLabel)
        ensures
            r == TwelveToneRowLabel(TwelveToneRowForm::Retrograde, TwelveToneRowNumber(4)),
    {
        TwelveToneRowLabel(TwelveToneRowForm::Retrograde, TwelveToneRowNumber(4))
    }

    /// The label R-5.
    #[allow(non_snake_case)]
    pub fn R5() -> (r: TwelveToneRowLabel)
        ensures
            r == TwelveToneRowLabel(TwelveToneRowForm::Retrograde, TwelveToneRowNumber(5)),
    {
        TwelveToneRowLabel(TwelveToneRowForm::Retrograde, TwelveToneRowNumber(5))
    }

    /// The label R-6.
    #[allow(non_snake_case)]
    pub fn R6() -> (r: TwelveToneRowLabel)
        ensures
            r == TwelveToneRowLabel(TwelveToneRowForm::Retrograde, TwelveToneRowNumber(6)),
    {
        TwelveToneRowLabel(TwelveToneRowForm::Retrograde, TwelveToneRowNumber(6))
    }

    /// The label R-7.
    #[allow(non_snake_case)]
    pub fn R7() -> (r: TwelveToneRowLabel)
        ensures
            r == TwelveToneRowLabel(TwelveToneRowForm::Retrograde, TwelveToneRowNumber(7)),
    {
        TwelveToneRowLabel(TwelveToneRowForm::Retrograde, TwelveToneRowNumber(7))
    }

    /// The label R-8.
    #[allow(non_snake_case)]
    pub fn R8() -> (r: TwelveToneRowLabel)
        ensures
            r == TwelveToneRowLabel(TwelveToneRowForm::Retrograde, TwelveToneRowNumber(8)),
    {
        TwelveToneRowLabel(TwelveToneRowForm::Retrograde, TwelveToneRowNumber(8))
    }

    /// The label R-9.
    #[allow(non_snake_case)]
    pub fn R9() -> (r: TwelveToneRowLabel)
        ensures
            r == TwelveToneRowLabel(TwelveToneRowForm::Retrograde, TwelveToneRowNumber(9)),
    {
        TwelveToneRowLabel(TwelveToneRowForm::Retrograde, TwelveToneRowNumber(9))
    }

    /// The label R-10.
    #[allow(non_snake_case)]
    pub fn R10() -> (r: TwelveToneRowLabel)
        ensures
            r == TwelveToneRowLabel(TwelveToneRowForm::Retrograde, TwelveToneRowNumber(10)),
    {
        TwelveToneRowLabel(TwelveToneRowForm::Retrograde, TwelveToneRowNumber(10))
    }

    /// The label R-11.
    #[allow(non_snake_case)]
    pub fn R11() -> (r: TwelveToneRowLabel)
        ensures
            r == TwelveToneRowLabel(TwelveToneRowForm::Retrograde, TwelveToneRowNumber(11)),
    {
        TwelveToneRowLabel(TwelveToneRowForm::Retrograde, TwelveToneRowNumber(11))
    }

    /// The label I-0.
    #[allow(non_snake_case)]
    pub fn I0() -> (r: TwelveToneRowLabel)
        ensures
            r == TwelveToneRowLabel(TwelveToneRowForm::Inversion, TwelveToneRowNumber(0)),
    {
        TwelveToneRowLabel(TwelveToneRowForm::Inversion, TwelveToneRowNumber(0))
    }

    /// The label I-1.
    #[allow(non_snake_case)]
    pub fn I1() -> (r: TwelveToneRowLabel)
        ensures
            r == TwelveToneRowLabel(TwelveToneRowForm::Inversion, TwelveToneRowNumber(1)),
    {
        TwelveToneRowLabel(TwelveToneRowForm::Inversion, TwelveToneRowNumber(1))
    }

    /// The label I-2.
    #[allow(non_snake_case)]
    pub fn I2() -> (r: TwelveToneRowLabel)
        ensures
            r == TwelveToneRowLabel(TwelveToneRowForm::Inversion, TwelveToneRowNumber(2)),
    {
        TwelveToneRowLabel(TwelveToneRowForm::Inversion, TwelveToneRowNumber(2))
    }

    /// The label I-3.
    #[allow(non_snake_case)]
    pub fn I3() -> (r: TwelveToneRowLabel)
        ensures
            r == TwelveToneRowLabel(TwelveToneRowForm::Inversion, TwelveToneRowNumber(3)),
    {
        TwelveToneRowLabel(TwelveToneRowForm::Inversion, TwelveToneRowNumber(3))
    }

    /// The label I-4.
    #[allow(non_snake_case)]
    pub fn I4() -> (r: TwelveToneRowLabel)
        ensures
            r == TwelveToneRowLabel(TwelveToneRowForm::Inversion, TwelveToneRowNumber(4)),
    {
        TwelveToneRowLabel(TwelveToneRowForm::Inversion, TwelveToneRowNumber(4))
    }

    /// The label I-5.
    #[allow(non_snake_case)]
    pub fn I5() -> (r: TwelveToneRowLabel)
        ensures
            r == TwelveToneRowLabel(TwelveToneRowForm::Inversion, TwelveToneRowNumber(5)),
    {
        TwelveToneRowLabel(TwelveToneRowForm::Inversion, TwelveToneRowNumber(5))
    }

    /// The label I-6.
    #[allow(non_snake_case)]
    pub fn I6() -> (r: TwelveToneRowLabel)
        ensures
            r == TwelveToneRowLabel(TwelveToneRowForm::Inversion, TwelveToneRowNumber(6)),
    {
        TwelveToneRowLabel(TwelveToneRowForm::Inversion, TwelveToneRowNumber(6))
    }

    /// The label I-7.
    #[allow(non_snake_case)]
    pub fn I7() -> (r: TwelveToneRowLabel)
        ensures
            r == TwelveToneRowLabel(TwelveToneRowForm::Inversion, TwelveToneRowNumber(7)),
    {
        TwelveToneRowLabel(TwelveToneRowForm::Inversion, TwelveToneRowNumber(7))
    }

    /// The label I-8.
    #[allow(non_snake_case)]
    pub fn I8() -> (r: TwelveToneRowLabel)
        ensures
            r == TwelveToneRowLabel(TwelveToneRowForm::Inversion, TwelveToneRowNumber(8)),
    {
        TwelveToneRowLabel(TwelveToneRowForm::Inversion, TwelveToneRowNumber(8))
    }

    /// The label I-9.
    #[allow(non_snake_case)]
    pub fn I9() -> (r: TwelveToneRowLabel)
        ensures
            r == TwelveToneRowLabel(TwelveToneRowForm::Inversion, TwelveToneRowNumber(9)),
    {
        TwelveToneRowLabel(TwelveToneRowForm::Inversion, TwelveToneRowNumber(9))
    }

    /// The label I-10.
    #[allow(non_snake_case)]
    pub fn I10() -> (r: TwelveToneRowLabel)
        ensures
            r == TwelveToneRowLabel(TwelveToneRowForm::Inversion, TwelveToneRowNumber(10)),
    {
        TwelveToneRowLabel(TwelveToneRowForm::Inversion, TwelveToneRowNumber(10))
    }

    /// The label I-11.
    #[allow(non_snake_case)]
    pub fn I11() -> (r: TwelveToneRowLabel)
        ensures
            r == TwelveToneRowLabel(TwelveToneRowForm::Inversion, TwelveToneRowNumber(11)),
    {
        TwelveToneRowLabel(TwelveToneRowForm::Inversion, TwelveToneRowNumber(11))
    }

    /// The label RI-0.
    #[allow(non_snake_case)]
    pub fn RI0() -> (r: TwelveToneRowLabel)
        ensures
            r == TwelveToneRowLabel(TwelveToneRowForm::RetrogradeInversion, TwelveToneRowNumber(0)),
    {
        TwelveToneRowLabel(TwelveToneRowForm::RetrogradeInversion, TwelveToneRowNumber(0))
    }

    /// The label RI-1.
    #[allow(non_snake_case)]
    pub fn RI1() -> (r: TwelveToneRowLabel)
        ensures
            r == TwelveToneRowLabel(TwelveToneRowForm::RetrogradeInversion, TwelveToneRowNumber(1)),
    {
        TwelveToneRowLabel(TwelveToneRowForm::RetrogradeInversion, TwelveToneRowNumber(1))
    }

    /// The label RI-2.
    #[allow(non_snake_case)]
    pub fn RI2() -> (r: TwelveToneRowLabel)
        ensures
            r == TwelveToneRowLabel(TwelveToneRowForm::RetrogradeInversion, TwelveToneRowNumber(2)),
    {
        TwelveToneRowLabel(TwelveToneRowForm::RetrogradeInversion, TwelveToneRowNumber(2))
    }

    /// The label RI-3.
    #[allow(non_snake_case)]
    pub fn RI3() -> (r: TwelveToneRowLabel)
        ensures
            r == TwelveToneRowLabel(TwelveToneRowForm::RetrogradeInversion, TwelveToneRowNumber(3)),
    {
        TwelveToneRowLabel(TwelveToneRowForm::RetrogradeInversion, TwelveToneRowNumber(3))
    }

    /// The label RI-4.
    #[allow(non_snake_case)]
    pub fn RI4() -> (r: TwelveToneRowLabel)
        ensures
            r == TwelveToneRowLabel(TwelveToneRowForm::RetrogradeInversion, TwelveToneRowNumber(4)),
    {
        TwelveToneRowLabel(TwelveToneRowForm::RetrogradeInversion, TwelveToneRowNumber(4))
    }

    /// The label RI-5.
    #[allow(non_snake_case)]
    pub fn RI5() -> (r: TwelveToneRowLabel)
        ensures
            r == TwelveToneRowLabel(TwelveToneRowForm::RetrogradeInversion, TwelveToneRowNumber(5)),
    {
        TwelveToneRowLabel(TwelveToneRowForm::RetrogradeInversion, TwelveToneRowNumber(5))
    }

    /// The label RI-6.
    #[allow(non_snake_case)]
    pub fn RI6() -> (r: TwelveToneRowLabel)
        ensures
            r == TwelveToneRowLabel(TwelveToneRowForm::RetrogradeInversion, TwelveToneRowNumber(6)),
    {
        TwelveToneRowLabel(TwelveToneRowForm::RetrogradeInversion, TwelveToneRowNumber(6))
    }

    /// The label RI-7.
    #[allow(non_snake_case)]
    pub fn RI7() -> (r: TwelveToneRowLabel)
        ensures
            r == TwelveToneRowLabel(TwelveToneRowForm::RetrogradeInversion, TwelveToneRowNumber(7)),
    {
        TwelveToneRowLabel(TwelveToneRowForm::RetrogradeInversion, TwelveToneRowNumber(7))
    }

    /// The label RI-8.
    #[allow(non_snake_case)]
    pub fn RI8() -> (r: TwelveToneRowLabel)
        ensures
            r == TwelveToneRowLabel(TwelveToneRowForm::RetrogradeInversion, TwelveToneRowNumber(8)),
    {
        TwelveToneRowLabel(TwelveToneRowForm::RetrogradeInversion, TwelveToneRowNumber(8))
    }

    /// The label RI-9.
    #[allow(non_snake_case)]
    pub fn RI9() -> (r: TwelveToneRowLabel)
        ensures
            r == TwelveToneRowLabel(TwelveToneRowForm::RetrogradeInversion, TwelveToneRowNumber(9)),
    {
        TwelveToneRowLabel(TwelveToneRowForm::RetrogradeInversion, TwelveToneRowNumber(9))
    }

    /// The label RI-10.
    #[allow(non_snake_case)]
    pub fn RI10() -> (r: TwelveToneRowLabel)
        ensures
            r == TwelveToneRowLabel(TwelveToneRowForm::RetrogradeInversion, TwelveToneRowNumber(10)),
    {
        TwelveToneRowLabel(TwelveToneRowForm::RetrogradeInversion, TwelveToneRowNumber(10))
    }

    /// The label RI-11.
    #[allow(non_snake_case)]
    pub fn RI11() -> (r: TwelveToneRowLabel)
        ensures
            r == TwelveToneRowLabel(TwelveToneRowForm::RetrogradeInversion, TwelveToneRowNumber(11)),
    {
        TwelveToneRowLabel(TwelveToneRowForm::RetrogradeInversion, TwelveToneRowNumber(11))
    }
}

impl Default for TwelveToneRowLabel {
    /// The label P-0.
    fn default() -> (r: TwelveToneRowLabel)
        ensures
            r == TwelveToneRowLabel(TwelveToneRowForm::Prime, TwelveToneRowNumber(0)),
    {
        TwelveToneRowLabel(TwelveToneRowForm::Prime, TwelveToneRowNumber(0))
    }
}

} // verus!
