use music_theory::matrix::{
    TwelveToneMatrix as Matrix, TwelveToneMatrix, TwelveToneRow, TwelveToneRowForm as Form,
    TwelveToneRowLabel as Label,
};
use music_theory::pitch::PitchClass as PC;

#[test]
fn from_row() {
    let m = Matrix {
        prime_0: TwelveToneRow::new([PC::C, PC::Cs, PC::E, PC::D, PC::A, PC::F, PC::B, PC::Ds, PC::Gs, PC::As, PC::G, PC::Fs])
            .expect("has all intervals"),
    };

    for form in [Form::Prime, Form::Retrograde, Form::Inversion, Form::RetrogradeInversion] {
        for n in 0..12 {
            let label = Label::new(form, n).expect("valid number");

            let row = m.get_row(label);

            assert_eq!(
                m, Matrix::from_row(label, row),
                "Matrix::from_row({label:?}, ...) created wrong matrix",
            )
        }
    }
}

#[test]
fn all_combinatorial() {
    let asc = TwelveToneMatrix {
        prime_0: TwelveToneRow::from_chromas(std::array::from_fn(|i| i as _))
            .expect("valid row")
    };

    assert!(
        asc.is_all_combinatorial(),
        "ascending row matrix should be all combinatorial",
    );
}

fn sample() -> Matrix {
    Matrix::from_chromas([0, 1, 4, 2, 9, 5, 11, 3, 8, 10, 7, 6]).expect("valid row")
}

#[test]
fn matrix_rows() {
    let m = sample();
    assert_eq!(m.prime(0), Some([PC::C, PC::Cs, PC::E, PC::D, PC::A, PC::F, PC::B, PC::Ds, PC::Gs, PC::As, PC::G, PC::Fs]));
    assert_eq!(m.prime(2), Some([PC::D, PC::Ds, PC::Fs, PC::E, PC::B, PC::G, PC::Cs, PC::F, PC::As, PC::C, PC::A, PC::Gs]));
    assert_eq!(m.retrograde(0), Some([PC::Fs, PC::G, PC::As, PC::Gs, PC::Ds, PC::B, PC::F, PC::A, PC::D, PC::E, PC::Cs, PC::C]));
    assert_eq!(m.inversion(0), Some([PC::C, PC::B, PC::Gs, PC::As, PC::Ds, PC::G, PC::Cs, PC::A, PC::E, PC::D, PC::F, PC::Fs]));
    assert_eq!(m.retrograde_inversion(0), Some([PC::Fs, PC::F, PC::D, PC::E, PC::A, PC::Cs, PC::G, PC::Ds, PC::As, PC::Gs, PC::B, PC::C]));
    assert_eq!(m.prime(12), None);
    assert_eq!(m.inversion(200), None);
}

#[test]
fn row_checks() {
    assert!(TwelveToneRow::new([PC::C; 12]).is_none());
    assert!(TwelveToneRow::from_chromas([0, 1, 2, 3, 4, 5, 6, 7, 8, 9, 10, 12]).is_err());
    assert!(TwelveToneRow::from_chromas([0, 0, 2, 3, 4, 5, 6, 7, 8, 9, 10, 11]).is_err());
    let row = TwelveToneRow::from_chromas([0, 1, 2, 3, 4, 5, 6, 7, 8, 9, 10, 11]).expect("valid row");
    assert_eq!(row.intervals(), [1; 12]);
    assert!(!row.has_all_intervals());
    let rotated = row.rotate(3).expect("in range");
    assert_eq!(rotated.get()[0], PC::Ds);
    assert!(row.rotate(12).is_some());
    assert!(row.rotate(13).is_none());
    assert_eq!(row.trichords()[1], [PC::Ds, PC::E, PC::F]);
    assert_eq!(row.hexachords()[1], [PC::Fs, PC::G, PC::Gs, PC::A, PC::As, PC::B]);
    assert_eq!(row.reverse().get()[0], PC::B);
}

#[test]
fn hexachord_labels() {
    let asc = Matrix::from_chromas([0, 1, 2, 3, 4, 5, 6, 7, 8, 9, 10, 11]).expect("valid row");
    let first = [PC::C, PC::Cs, PC::D, PC::Ds, PC::E, PC::F];
    let found = asc.label_hexachord(&first);
    assert_eq!(found, Some((Label::new(Form::Prime, 0).expect("valid number"), 0)));
    let not_a_hexachord = [PC::C, PC::D, PC::E, PC::F, PC::G, PC::A];
    assert_eq!(asc.label_hexachord(&not_a_hexachord), None);
}
