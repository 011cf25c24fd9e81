use pixelpipe::rowfilter::{
    contains_subslice, filter_rows, fsc_or_fuel_terms, should_delete_row, split_line,
};

#[test]
fn drops_fsc_line_keeps_other_line() {
    let terms = fsc_or_fuel_terms();
    let dropped = b"a,b,FSCdata,c".to_vec();
    let kept = b"a,b,other,c".to_vec();
    assert!(should_delete_row(&dropped, &terms));
    assert!(!should_delete_row(&kept, &terms));
    let lines = vec![dropped, kept.clone()];
    let out = filter_rows(&lines, &terms);
    assert_eq!(out, vec![kept]);
}

#[test]
fn all_four_term_spellings_drop() {
    let terms = fsc_or_fuel_terms();
    assert!(should_delete_row(&b"a,b,xfscy,c".to_vec(), &terms));
    assert!(should_delete_row(&b"a,b,FSC,c".to_vec(), &terms));
    assert!(should_delete_row(&b"a,b,jet fuel,c".to_vec(), &terms));
    assert!(should_delete_row(&b"a,b,Fuel load".to_vec(), &terms));
}

#[test]
fn match_elsewhere_than_third_field_keeps() {
    let terms = fsc_or_fuel_terms();
    assert!(!should_delete_row(&b"fsc,fuel,clean,FSC".to_vec(), &terms));
}

#[test]
fn short_lines_are_kept() {
    let terms = fsc_or_fuel_terms();
    assert!(!should_delete_row(&b"".to_vec(), &terms));
    assert!(!should_delete_row(&b"fsc".to_vec(), &terms));
    assert!(!should_delete_row(&b"fsc,fuel".to_vec(), &terms));
}

#[test]
fn kept_lines_are_verbatim_and_ordered() {
    let terms = fsc_or_fuel_terms();
    let lines = vec![
        b"h1,h2,h3,h4".to_vec(),
        b"a,b,fscdata,c".to_vec(),
        b"x,y,z".to_vec(),
        b"p,q,Fuel,r,extra,".to_vec(),
        b",,third".to_vec(),
    ];
    let out = filter_rows(&lines, &terms);
    assert_eq!(
        out,
        vec![b"h1,h2,h3,h4".to_vec(), b"x,y,z".to_vec(), b",,third".to_vec()]
    );
}

#[test]
fn split_line_fields() {
    let fields = split_line(&b"a,b,other,c".to_vec());
    assert_eq!(
        fields,
        vec![b"a".to_vec(), b"b".to_vec(), b"other".to_vec(), b"c".to_vec()]
    );
    let edges = split_line(&b",,".to_vec());
    assert_eq!(edges, vec![b"".to_vec(), b"".to_vec(), b"".to_vec()]);
    let whole = split_line(&b"plain".to_vec());
    assert_eq!(whole, vec![b"plain".to_vec()]);
}

#[test]
fn substring_search() {
    assert!(contains_subslice(&b"abcde".to_vec(), &b"cd".to_vec()));
    assert!(contains_subslice(&b"abcde".to_vec(), &b"".to_vec()));
    assert!(contains_subslice(&b"abcde".to_vec(), &b"abcde".to_vec()));
    assert!(!contains_subslice(&b"abcde".to_vec(), &b"ce".to_vec()));
    assert!(!contains_subslice(&b"ab".to_vec(), &b"abc".to_vec()));
}
