use music_theory::chord::{interpret, ChordTk as T, TkCursor};
use music_theory::interval::Interval as I;

fn ivls(s: &str) -> Vec<I> {
    s.split(',')
        .map(|s| s.trim().parse::<I>().expect("valid intervals"))
        .collect::<Vec<_>>()
}

#[test]
fn cursor() {
    let tks = [T::Min, T::Seven, T::Nine, T::Eleven, T::Thirteen];

    let mut cursor = TkCursor::new(&tks);

    assert_eq!(cursor.curr(), Some(T::Min));

    assert_eq!(cursor.peek(0), Some(T::Seven));
    assert_eq!(cursor.peek(1), Some(T::Nine));
    assert_eq!(cursor.peek(2), Some(T::Eleven));

    cursor.consume(1);

    assert_eq!(cursor.curr(), Some(T::Seven));
    assert_eq!(cursor.peek(2), Some(T::Thirteen));
    assert_eq!(cursor.peek(3), None);

    cursor.consume(2);

    assert_eq!(cursor.curr(), Some(T::Eleven));

    assert_eq!(cursor.consumed(), 3);

    cursor.consume(2);

    assert_eq!(cursor.curr(), None);

    assert_eq!(cursor.consumed(), 5);
}

#[test]
fn interpret_successful_no_special() {
    {
        let intervals = ivls("P1, M3, P5");
        assert_eq!(interpret(&[]).as_ref(), Some(&intervals), "failed to interpret C");
        assert_eq!(interpret(&[T::Maj]).as_ref(), Some(&intervals), "failed to interpret Cmaj");
    }

    {
        let intervals = ivls("P1, m3, P5");
        assert_eq!(interpret(&[T::Min]).as_ref(), Some(&intervals), "failed to interpret Cmin / Cm");
    }

    {
        let intervals = ivls("P1, M3, A5");
        assert_eq!(interpret(&[T::Aug]).as_ref(), Some(&intervals), "failed to interpret Caug / C+");
    }

    {
        let intervals = ivls("P1, m3, d5");
        assert_eq!(interpret(&[T::Dim]).as_ref(), Some(&intervals), "failed to interpret Cdim");
    }

    {
        let intervals = ivls("P1, M2, P5");
        assert_eq!(interpret(&[T::Sus2]).as_ref(), Some(&intervals), "failed to interpret Csus2");
    }

    {
        let intervals = ivls("P1, P4, P5");
        assert_eq!(interpret(&[T::Sus4]).as_ref(), Some(&intervals), "failed to interpret Csus4");
    }

    {
        let intervals = ivls("P1, P5");
        assert_eq!(interpret(&[T::Five]).as_ref(), Some(&intervals), "failed to interpret C5");
    }

    {
        let intervals = ivls("P1, M3, P5, M6");
        assert_eq!(interpret(&[T::Six]).as_ref(), Some(&intervals), "failed to interpret C6");
        assert_eq!(interpret(&[T::Maj, T::Six]).as_ref(), Some(&intervals), "failed to interpret Cmaj6");
    }

    {
        let intervals = ivls("P1, m3, P5, M6");
        assert_eq!(interpret(&[T::Min, T::Six]).as_ref(), Some(&intervals), "failed to interpret Cmin6");
    }

    {
        let intervals = ivls("P1, M3, A5, M6");
        assert_eq!(interpret(&[T::Aug, T::Six]).as_ref(), Some(&intervals), "failed to interpret Caug6");
    }
    
    {
        let intervals = ivls("P1, m3, d5, M6");
        assert_eq!(interpret(&[T::Dim, T::Six]).as_ref(), Some(&intervals), "failed to interpret Cdim6");
    }

    {
        let intervals = ivls("P1, M3, P5, m7");
        assert_eq!(interpret(&[T::Seven]).as_ref(), Some(&intervals), "failed to interpret C7");
    }

    {
        let intervals = ivls("P1, m3, d5, d7");
        assert_eq!(interpret(&[T::Dim, T::Seven]).as_ref(), Some(&intervals), "failed to interpret Cdim7");
    }

    {
        let intervals = ivls("P1, m3, P5, m7");
        assert_eq!(interpret(&[T::Min, T::Seven]).as_ref(), Some(&intervals), "failed to interpret Cmin7");
    }

    {
        let intervals = ivls("P1, m3, P5, M7");
        assert_eq!(interpret(&[T::Min, T::Maj, T::Seven]).as_ref(), Some(&intervals), "failed to interpret Cmin(maj7)");
    }

    {
        let intervals = ivls("P1, M3, P5, M7");
        assert_eq!(interpret(&[T::Maj, T::Seven]).as_ref(), Some(&intervals), "failed to interpret Cmaj7");
    }

    {
        let intervals = ivls("P1, M3, A5, m7");
        assert_eq!(interpret(&[T::Aug, T::Seven]).as_ref(), Some(&intervals), "failed to interpret Caug7");
    }

    {
        let intervals = ivls("P1, M3, A5, M7");
        assert_eq!(interpret(&[T::Aug, T::Maj, T::Seven]).as_ref(), Some(&intervals), "failed to interpret Caug(maj7)");
    }

    {
        let intervals = ivls("P1, M3, P5, m7, M9");
        assert_eq!(interpret(&[T::Nine]).as_ref(), Some(&intervals), "failed to interpret C9");
    }

    {
        let intervals = ivls("P1, m3, P5, m7, M9");
        assert_eq!(interpret(&[T::Min, T::Nine]).as_ref(), Some(&intervals), "failed to interpret Cmin9");
    }

    {
        let intervals = ivls("P1, M3, P5, m7, M9, P11");
        assert_eq!(interpret(&[T::Eleven]).as_ref(), Some(&intervals), "failed to interpret C11");
    }

    {
        let intervals = ivls("P1, M3, P5, m7, M9, P11, M13");
        assert_eq!(interpret(&[T::Thirteen]).as_ref(), Some(&intervals), "failed to interpret C13");
    }
}

#[test]
fn interpret_unsuccessful_no_special() {
    // duplicate modifier
    {
        assert_eq!(interpret(&[T::Maj, T::Dim]).as_ref(), None, "unintended successful interpret Cmaj dim");
    }
    
    // needs number after min maj
    {
        assert_eq!(interpret(&[T::Min, T::Maj]).as_ref(), None, "unintended successful interpret Cmin maj");
        assert_eq!(interpret(&[T::Min, T::Maj, T::Omit(5)]).as_ref(), None, "unintended successful interpret Cmin maj omit5");
    }
    
    // suspended chords shouldn't have quality
    {
        assert_eq!(interpret(&[T::Min, T::Sus4]).as_ref(), None, "unintended successful interpret Cmin sus4");
        assert_eq!(interpret(&[T::Min, T::Sus2]).as_ref(), None, "unintended successful interpret Cmin sus4");
    }

    // power chords shouldn't have quality
    {
        assert_eq!(interpret(&[T::Min, T::Five]).as_ref(), None, "unintended successful interpret Cmin5");
    }

    // can't repeat numbers
    {
        assert_eq!(interpret(&[T::Seven, T::Seven]).as_ref(), None, "unintended successful interpret C7 13");
    }
}

#[test]
fn interpret_omit() {
    {
        let intervals = ivls("P1, d5");
        assert_eq!(interpret(&[T::Dim, T::Omit(3)]).as_ref(), Some(&intervals), "failed to interpret Cdim omit3");
    }

    {
        let intervals = ivls("P1, M3, M6");
        assert_eq!(interpret(&[T::Maj, T::Six, T::Omit(5)]).as_ref(), Some(&intervals), "failed to interpret Cmaj6 omit5");
    }

    {
        let intervals = ivls("P1, d5, d7");
        assert_eq!(interpret(&[T::Dim, T::Seven, T::Omit(3)]).as_ref(), Some(&intervals), "failed to interpret Cdim7 omit3");
    }

    {
        assert_eq!(interpret(&[T::Aug, T::Nine, T::Omit(3), T::Omit(3)]).as_ref(), None, "unintended successful interpret Caug9 omit3 omit3");
    }
    
    {
        let intervals = ivls("P1, P5, m7");
        assert_eq!(interpret(&[T::Seven, T::Omit(3)]).as_ref(), Some(&intervals), "failed to interpret C7 omit3");
    }
    
    {
        let intervals = ivls("P1, P5, P11");
        assert_eq!(interpret(&[T::Eleven, T::Omit(3), T::Omit(9), T::Omit(7)]).as_ref(), Some(&intervals), "failed to interpret C11 omit3 omit9 omit7");
    }

    {
        assert_eq!(interpret(&[T::Five, T::Omit(7)]).as_ref(), None, "unintended successful interpret C5 omit7");
    }
}


#[test]
fn interpret_empty_is_major_triad() {
    assert_eq!(interpret(&[]), Some(ivls("P1, M3, P5")));
}

#[test]
fn interpret_rejects_leading_omit_and_trailing_tokens() {
    assert_eq!(interpret(&[T::Omit(5)]), None);
    assert_eq!(interpret(&[T::Maj, T::Min]), None);
    assert_eq!(interpret(&[T::Sus4, T::Seven]), None);
    assert_eq!(interpret(&[T::Seven, T::Omit(0)]), None);
}

#[test]
fn cursor_consume_past_end() {
    let tks = [T::Maj];
    let mut cursor = TkCursor::new(&tks);
    assert_eq!(cursor.curr(), Some(T::Maj));
    assert_eq!(cursor.peek(0), None);
    cursor.consume(5);
    assert_eq!(cursor.curr(), None);
    assert_eq!(cursor.consumed(), 1);
}
