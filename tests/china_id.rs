use china_id::{BirthDate, ChinaId, Error, Gender};

#[test]
fn ut_parse() {
    let id = ChinaId::new("43102220200101133x");

    assert_eq!(id.as_str(), "43102220200101133X");
    assert!(id.valid().is_ok());
    assert_eq!(id.adcode().unwrap(), "431022");
    let b = id.birthday();
    assert!(b.is_ok());
    let d = b.unwrap();
    let date = chrono::NaiveDate::from_ymd_opt(d.year, d.month, d.day).unwrap();
    assert_eq!(date.to_string(), "2020-01-01");
    assert_eq!(id.gender(), Gender::Male);
}

#[test]
fn wrong_lengths_report_the_length() {
    assert_eq!(ChinaId::new("").valid(), Err(Error::LengthMismatch(0)));
    assert_eq!(ChinaId::new("4310222020010113").valid(), Err(Error::LengthMismatch(16)));
    assert_eq!(ChinaId::new("43102220200101133X0").valid(), Err(Error::LengthMismatch(19)));
}

#[test]
fn length_counts_characters_not_bytes() {
    // Seventeen ASCII digits and one two-byte character: 18 characters.
    let id = ChinaId::new("43102220200101133é");
    assert_eq!(id.valid(), Err(Error::ChecksumMismatch('X', 'É')));
    assert_eq!(ChinaId::new("4310222020010113é").valid(), Err(Error::LengthMismatch(17)));
}

#[test]
fn lower_and_upper_check_letter_agree() {
    let lower = ChinaId::new("43102220200101133x");
    let upper = ChinaId::new("43102220200101133X");
    assert_eq!(lower.as_str(), upper.as_str());
    assert_eq!(lower.valid(), upper.valid());
    assert_eq!(lower.valid(), Ok(()));
}

#[test]
fn constructor_uppercases_letters() {
    assert_eq!(ChinaId::new("abc-xyz").as_str(), "ABC-XYZ");
}

#[test]
fn adcode_of_example() {
    assert_eq!(ChinaId::new("43102220200101133X").adcode(), Ok("431022"));
}

#[test]
fn adcode_of_short_input_is_an_error() {
    assert_eq!(ChinaId::new("43102").adcode(), Err(Error::LengthMismatch(5)));
    assert_eq!(ChinaId::new("431022").adcode(), Ok("431022"));
}

#[test]
fn birthday_of_example() {
    let d = ChinaId::new("43102220200101133X").birthday();
    assert_eq!(d, Ok(BirthDate { year: 2020, month: 1, day: 1 }));
}

#[test]
fn birthday_needs_fourteen_characters() {
    assert_eq!(ChinaId::new("4310222020010").birthday(), Err(Error::LengthMismatch(13)));
    assert_eq!(
        ChinaId::new("43102220200101").birthday(),
        Ok(BirthDate { year: 2020, month: 1, day: 1 })
    );
}

#[test]
fn birthday_leap_days() {
    assert_eq!(
        ChinaId::new("43102219800229123").birthday(),
        Ok(BirthDate { year: 1980, month: 2, day: 29 })
    );
    assert_eq!(
        ChinaId::new("43102219000229123").birthday(),
        Err(Error::InvalidBirthDate("19000229".to_string()))
    );
}

#[test]
fn gender_of_example_is_male() {
    assert_eq!(ChinaId::new("43102220200101133X").gender(), Gender::Male);
}

#[test]
fn even_sequence_digit_is_female() {
    let id = ChinaId::new("431022202001011348");
    assert_eq!(id.valid(), Ok(()));
    assert_eq!(id.gender(), Gender::Female);
}

#[test]
fn gender_falls_back_to_male() {
    assert_eq!(ChinaId::new("4310222020").gender(), Gender::Male);
    assert_eq!(ChinaId::new("4310222020010113A8").gender(), Gender::Male);
}

#[test]
fn gender_labels() {
    assert_eq!(Gender::Male.label(), "男");
    assert_eq!(Gender::Female.label(), "女");
}

#[test]
fn non_digit_reports_position_and_character() {
    assert_eq!(ChinaId::new("431A2220200101133X").valid(), Err(Error::NotADigit('A', 3)));
    // The earliest bad position wins.
    assert_eq!(ChinaId::new("431A22202001011B3X").valid(), Err(Error::NotADigit('A', 3)));
}

#[test]
fn wrong_check_character() {
    assert_eq!(
        ChinaId::new("431022202001011335").valid(),
        Err(Error::ChecksumMismatch('X', '5'))
    );
    assert_eq!(
        ChinaId::new("431022202001011340").valid(),
        Err(Error::ChecksumMismatch('8', '0'))
    );
}

#[test]
fn bad_month_fails_after_checksum_passes() {
    assert_eq!(
        ChinaId::new("431022202013021332").valid(),
        Err(Error::InvalidBirthDate("20201302".to_string()))
    );
}

#[test]
fn another_valid_number() {
    assert_eq!(ChinaId::new("11010519491231002x").valid(), Ok(()));
    assert_eq!(
        ChinaId::new("11010519491231002X").birthday(),
        Ok(BirthDate { year: 1949, month: 12, day: 31 })
    );
    assert_eq!(ChinaId::new("11010519491231002X").gender(), Gender::Female);
}
