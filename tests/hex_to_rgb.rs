use col_rs::{hex_to_rgb, Error};

#[test]
fn test_hex_to_rgb_conversion_6_no_hash() -> Result<(), Error> {
    let hex = "22fa31";
    let rgb = hex_to_rgb(hex)?;
    assert_eq!(rgb, [34, 250, 49]);

    Ok(())
}

#[test]
fn test_hex_to_rgb_conversion_6_no_hash_caps() -> Result<(), Error> {
    let hex = "22FA31";
    let rgb = hex_to_rgb(hex)?;
    assert_eq!(rgb, [34, 250, 49]);

    Ok(())
}

#[test]
fn test_hex_to_rgb_conversion_6_hash_caps() -> Result<(), Error> {
    let hex = "#22FA31";
    let rgb = hex_to_rgb(hex)?;
    assert_eq!(rgb, [34, 250, 49]);

    Ok(())
}

#[test]
fn test_hex_to_rgb_conversion_6_hash() -> Result<(), Error> {
    let hex = "#22fa31";
    let rgb = hex_to_rgb(hex)?;
    assert_eq!(rgb, [34, 250, 49]);

    Ok(())
}

#[test]
fn test_hex_to_rgb_conversion_3_hash() -> Result<(), Error> {
    let hex = "#2aa";
    let rgb = hex_to_rgb(hex)?;
    assert_eq!(rgb, [34, 170, 170]);

    Ok(())
}

#[test]
fn test_hex_to_rgb_conversion_3_no_hash() -> Result<(), Error> {
    let hex = "2ac";
    let rgb = hex_to_rgb(hex)?;
    assert_eq!(rgb, [34, 170, 204]);

    Ok(())
}

#[test]
fn test_hex_to_rgb_conversion_3_hash_caps() -> Result<(), Error> {
    let hex = "#2aa";
    let rgb = hex_to_rgb(hex)?;
    assert_eq!(rgb, [34, 170, 170]);

    Ok(())
}

#[test]
fn test_hex_to_rgb_conversion_3_caps() -> Result<(), Error> {
    let hex = "2AA";
    let rgb = hex_to_rgb(hex)?;
    assert_eq!(rgb, [34, 170, 170]);

    Ok(())
}

#[test]
fn test_hex_to_rgb_invalid_length() {
    let hex = "#4faf";
    let rgb = hex_to_rgb(hex);

    assert!(matches!(rgb, Err(Error::LengthInvalid)));
}

#[test]
fn test_hex_to_rgb_invalid_hex_code() {
    let hex = "#rfa";
    let rgb = hex_to_rgb(hex);

    assert!(matches!(rgb, Err(Error::ParseIntError)));
}

#[test]
fn six_digits_format_back_to_lowercase_input() {
    for h in ["22FA31", "#00ff7F", "a0B1c2", "#FFFFFF", "000000"] {
        let rgb = hex_to_rgb(h).unwrap();
        let back = format!("{:02x}{:02x}{:02x}", rgb[0], rgb[1], rgb[2]);
        assert_eq!(back, h.trim_start_matches('#').to_lowercase());
    }
}

#[test]
fn short_form_equals_doubled_digits() {
    assert_eq!(hex_to_rgb("2ac"), hex_to_rgb("22aacc"));
    assert_eq!(hex_to_rgb("#2aa"), hex_to_rgb("22aaaa"));
    assert_eq!(hex_to_rgb("#F0c").unwrap(), [255, 0, 204]);
}

#[test]
fn mixed_case_reads_alike() {
    assert_eq!(hex_to_rgb("22FA31"), hex_to_rgb("22fa31"));
    assert_eq!(hex_to_rgb("#aBcDeF").unwrap(), [171, 205, 239]);
}

#[test]
fn lengths_other_than_three_or_six_are_refused() {
    for h in ["", "#", "4faf", "12", "1234567", "##abc", "#12345"] {
        assert_eq!(hex_to_rgb(h), Err(Error::LengthInvalid), "{}", h);
    }
}

#[test]
fn non_hex_characters_are_refused() {
    for h in ["#rfa", "12345g", "+f0000", " 12", "#ab-", "éa"] {
        assert_eq!(hex_to_rgb(h), Err(Error::ParseIntError), "{}", h);
    }
}

#[test]
fn only_one_marker_is_stripped() {
    assert_eq!(hex_to_rgb("##ab"), Err(Error::ParseIntError));
}

#[test]
fn extreme_components() {
    assert_eq!(hex_to_rgb("#000").unwrap(), [0, 0, 0]);
    assert_eq!(hex_to_rgb("fff").unwrap(), [255, 255, 255]);
    assert_eq!(hex_to_rgb("#ff0080").unwrap(), [255, 0, 128]);
}

#[test]
fn error_messages() {
    assert_eq!(
        Error::LengthInvalid.message(),
        "unable to convert, hex code should be of length 3 or 6"
    );
    assert_eq!(Error::ParseIntError.message(), "unable to parse into integer");
}
