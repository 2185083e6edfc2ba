use rust_music_theory::note::{NoteLetter, Pitch, PitchSymbol};
#[test]
fn test_pitch_symbol_display() {
    assert_eq!(PitchSymbol::Bs.to_string(), "B♯");
    assert_eq!(PitchSymbol::C.to_string(), "C");
    assert_eq!(PitchSymbol::Cs.to_string(), "C♯");
    assert_eq!(PitchSymbol::Db.to_string(), "D♭");
    assert_eq!(PitchSymbol::D.to_string(), "D");
    assert_eq!(PitchSymbol::Ds.to_string(), "D♯");
    assert_eq!(PitchSymbol::Eb.to_string(), "E♭");
    assert_eq!(PitchSymbol::E.to_string(), "E");
    assert_eq!(PitchSymbol::Es.to_string(), "E♯");
    assert_eq!(PitchSymbol::F.to_string(), "F");
    assert_eq!(PitchSymbol::Fs.to_string(), "F♯");
    assert_eq!(PitchSymbol::Gb.to_string(), "G♭");
    assert_eq!(PitchSymbol::G.to_string(), "G");
    assert_eq!(PitchSymbol::Gs.to_string(), "G♯");
    assert_eq!(PitchSymbol::Ab.to_string(), "A♭");
    assert_eq!(PitchSymbol::A.to_string(), "A");
    assert_eq!(PitchSymbol::As.to_string(), "A♯");
    assert_eq!(PitchSymbol::Bb.to_string(), "B♭");
    assert_eq!(PitchSymbol::B.to_string(), "B");
    assert_eq!(PitchSymbol::Cb.to_string(), "C♭");
}

#[test]
fn test_pitch_symbol_to_pitch_conversion() {
    // Test natural notes
    assert_eq!(Pitch::from(PitchSymbol::C), Pitch::new(NoteLetter::C, 0));
    assert_eq!(Pitch::from(PitchSymbol::D), Pitch::new(NoteLetter::D, 0));
    assert_eq!(Pitch::from(PitchSymbol::E), Pitch::new(NoteLetter::E, 0));
    assert_eq!(Pitch::from(PitchSymbol::F), Pitch::new(NoteLetter::F, 0));
    assert_eq!(Pitch::from(PitchSymbol::G), Pitch::new(NoteLetter::G, 0));
    assert_eq!(Pitch::from(PitchSymbol::A), Pitch::new(NoteLetter::A, 0));
    assert_eq!(Pitch::from(PitchSymbol::B), Pitch::new(NoteLetter::B, 0));

    // Test sharp notes
    assert_eq!(Pitch::from(PitchSymbol::Cs), Pitch::new(NoteLetter::C, 1));
    assert_eq!(Pitch::from(PitchSymbol::Ds), Pitch::new(NoteLetter::D, 1));
    assert_eq!(Pitch::from(PitchSymbol::Es), Pitch::new(NoteLetter::E, 1));
    assert_eq!(Pitch::from(PitchSymbol::Fs), Pitch::new(NoteLetter::F, 1));
    assert_eq!(Pitch::from(PitchSymbol::Gs), Pitch::new(NoteLetter::G, 1));
    assert_eq!(Pitch::from(PitchSymbol::As), Pitch::new(NoteLetter::A, 1));
    assert_eq!(Pitch::from(PitchSymbol::Bs), Pitch::new(NoteLetter::B, 1));

    // Test flat notes
    assert_eq!(Pitch::from(PitchSymbol::Cb), Pitch::new(NoteLetter::C, -1));
    assert_eq!(Pitch::from(PitchSymbol::Db), Pitch::new(NoteLetter::D, -1));
    assert_eq!(Pitch::from(PitchSymbol::Eb), Pitch::new(NoteLetter::E, -1));
    assert_eq!(Pitch::from(PitchSymbol::Gb), Pitch::new(NoteLetter::G, -1));
    assert_eq!(Pitch::from(PitchSymbol::Ab), Pitch::new(NoteLetter::A, -1));
    assert_eq!(Pitch::from(PitchSymbol::Bb), Pitch::new(NoteLetter::B, -1));
}

#[test]
fn test_pitch_symbol_enharmonic_equivalents() {
    // B# and C are enharmonically equivalent
    let bs_pitch = Pitch::from(PitchSymbol::Bs);
    let c_pitch = Pitch::from(PitchSymbol::C);
    assert_eq!(bs_pitch.into_u8() % 12, c_pitch.into_u8());

    // C# and Db are enharmonically equivalent
    let cs_pitch = Pitch::from(PitchSymbol::Cs);
    let db_pitch = Pitch::from(PitchSymbol::Db);
    assert_eq!(cs_pitch.into_u8(), db_pitch.into_u8());

    // E# and F are enharmonically equivalent
    let es_pitch = Pitch::from(PitchSymbol::Es);
    let f_pitch = Pitch::from(PitchSymbol::F);
    assert_eq!(es_pitch.into_u8(), f_pitch.into_u8());

    // Cb and B are enharmonically equivalent
    let cb_pitch = Pitch::from(PitchSymbol::Cb);
    let b_pitch = Pitch::from(PitchSymbol::B);
    assert_eq!(cb_pitch.into_u8() % 12, b_pitch.into_u8());
}

#[test]
fn test_pitch_symbol_equality() {
    assert_eq!(PitchSymbol::C, PitchSymbol::C);
    assert_ne!(PitchSymbol::C, PitchSymbol::Cs);
    assert_ne!(PitchSymbol::Cs, PitchSymbol::Db);
    assert_eq!(PitchSymbol::Fs, PitchSymbol::Fs);
    assert_ne!(PitchSymbol::Fs, PitchSymbol::Gb);
}
