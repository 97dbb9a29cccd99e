use edit_s3_file::{assemble, PartResult};

fn result(part_number: i32, tag: &str) -> PartResult {
    PartResult { part_number, tag: tag.to_string() }
}

#[test]
fn completion_lists_tags_in_order_numbered_from_one() {
    let upload = assemble(&vec![result(1, "a"), result(2, "b"), result(3, "c")]);
    let parts = upload.parts();
    assert_eq!(parts.len(), 3);
    assert_eq!(parts[0].part_number(), Some(1));
    assert_eq!(parts[0].e_tag(), Some("a"));
    assert_eq!(parts[1].part_number(), Some(2));
    assert_eq!(parts[1].e_tag(), Some("b"));
    assert_eq!(parts[2].part_number(), Some(3));
    assert_eq!(parts[2].e_tag(), Some("c"));
}

#[test]
fn completion_numbers_by_place_whatever_was_collected() {
    let upload = assemble(&vec![result(7, "x"), result(7, "y"), result(-3, "z")]);
    let numbers: Vec<Option<i32>> = upload.parts().iter().map(|part| part.part_number()).collect();
    let tags: Vec<Option<&str>> = upload.parts().iter().map(|part| part.e_tag()).collect();
    assert_eq!(numbers, vec![Some(1), Some(2), Some(3)]);
    assert_eq!(tags, vec![Some("x"), Some("y"), Some("z")]);
}

#[test]
fn completion_of_nothing_lists_nothing() {
    let upload = assemble(&vec![]);
    assert!(upload.parts().is_empty());
    assert_eq!(upload.parts, Some(vec![]));
}

#[test]
fn completion_sets_only_number_and_tag() {
    let upload = assemble(&vec![result(1, "\"9b2cf535f27731c974343645a3985328\"")]);
    let part = &upload.parts()[0];
    assert_eq!(part.e_tag(), Some("\"9b2cf535f27731c974343645a3985328\""));
    assert_eq!(part.checksum_crc32(), None);
    assert_eq!(part.checksum_sha256(), None);
}
