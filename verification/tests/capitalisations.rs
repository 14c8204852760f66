use seance::all_capitalisations_of;

#[test]
fn app_capitalisations() {
    let mut result = all_capitalisations_of("svg");
    result.sort();
    assert_eq!(result.len(), 8);
    assert_eq!(result, vec!["SVG", "SVg", "SvG", "Svg", "sVG", "sVg", "svG", "svg"])
}

#[test]
fn lib_capitalisations() {
    let mut result = seance::file_dialog::all_capitalisations_of("svg");
    result.sort();
    assert_eq!(result.len(), 8);
    assert_eq!(result, vec!["SVG", "SVg", "SvG", "Svg", "sVG", "sVg", "svG", "svg"])
}

#[test]
fn capitalisations_in_mask_order() {
    assert_eq!(all_capitalisations_of("aB"), vec!["ab", "Ab", "aB", "AB"]);
    assert_eq!(all_capitalisations_of(""), vec![""]);
    assert_eq!(all_capitalisations_of("1-z"), vec!["1-z", "1-z", "1-z", "1-z", "1-Z", "1-Z", "1-Z", "1-Z"]);
}
