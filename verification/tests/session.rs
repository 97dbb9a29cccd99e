use edit_s3_file::{Lookup, ModifyError, Part, PartRequest, Progress};

/// A store that holds one object in memory and serves the requests of one
/// multipart upload.
struct Store {
    object: Vec<u8>,
    parts: Vec<(i32, Vec<u8>)>,
    requests: Vec<String>,
}

impl Store {
    fn holding(object: Vec<u8>) -> Store {
        Store { object, parts: Vec::new(), requests: Vec::new() }
    }

    fn transfer(&mut self, request: PartRequest) -> String {
        match request {
            PartRequest::Upload { part_number, body } => {
                let bytes = body.bytes().unwrap().to_vec();
                self.requests.push(format!("upload {} of {} bytes", part_number, bytes.len()));
                self.parts.push((part_number, bytes));
                format!("tag-{}", part_number)
            }
            PartRequest::Copy { part_number, copy_source, copy_source_range } => {
                self.requests.push(format!(
                    "copy {} from {} {}",
                    part_number, copy_source, copy_source_range
                ));
                let range = copy_source_range.strip_prefix("bytes=").unwrap();
                let (first, last) = range.split_once('-').unwrap();
                let first: usize = first.parse().unwrap();
                let last: usize = last.parse().unwrap();
                self.parts.push((part_number, self.object[first..=last].to_vec()));
                format!("tag-{}", part_number)
            }
        }
    }

    fn complete(&mut self, listed: Vec<(i32, String)>) {
        let mut object = Vec::new();
        for (place, (part_number, tag)) in listed.iter().enumerate() {
            assert_eq!(*part_number, place as i32 + 1);
            assert_eq!(*tag, format!("tag-{}", part_number));
            let (stored_number, bytes) = &self.parts[place];
            assert_eq!(stored_number, part_number);
            object.extend_from_slice(bytes);
        }
        assert_eq!(listed.len(), self.parts.len());
        self.object = object;
    }
}

/// Runs a whole modification against the store, as a driver would.
fn modify(store: &mut Store, offset: i64, payload: Vec<u8>) -> Result<(), ModifyError> {
    let lookup = lookup(offset, payload);
    let length = store.object.len() as i64;
    assert!(lookup.places_in(length));
    let opening = lookup.on_length(Ok(Some(length)))?;
    assert_eq!(opening.descriptor().total_length, length);
    let mut progress = opening.on_upload_id(Ok(Some("upload-1".to_string())))?;
    loop {
        match progress {
            Progress::Part(transfer, request) => {
                assert_eq!(transfer.upload(), "upload-1");
                assert_eq!(transfer.descriptor().bucket, "plots");
                assert_eq!(transfer.descriptor().key, "plot.bin");
                let number = match &request {
                    PartRequest::Upload { part_number, .. } => *part_number,
                    PartRequest::Copy { part_number, .. } => *part_number,
                };
                assert_eq!(transfer.in_flight(), number);
                let tag = store.transfer(request);
                progress = transfer.on_part(Ok(Some(tag)))?;
            }
            Progress::Complete(closing, upload) => {
                assert_eq!(closing.upload(), "upload-1");
                assert_eq!(closing.descriptor().key, "plot.bin");
                let listed = upload
                    .parts()
                    .iter()
                    .map(|part| (part.part_number().unwrap(), part.e_tag().unwrap().to_string()))
                    .collect();
                store.complete(listed);
                return closing.on_completed(Ok(()));
            }
        }
    }
}

fn patched(existing: &[u8], offset: usize, payload: &[u8]) -> Vec<u8> {
    let mut expected = existing[..offset].to_vec();
    expected.extend_from_slice(payload);
    expected.extend_from_slice(&existing[offset + payload.len()..]);
    expected
}

fn lookup(offset: i64, payload: Vec<u8>) -> Lookup {
    Lookup::new("plots".to_string(), "plot.bin".to_string(), Part::new(offset, payload))
}

fn first_part(offset: i64, payload: Vec<u8>, length: i64) -> Progress {
    let opening = lookup(offset, payload).on_length(Ok(Some(length))).unwrap();
    opening.on_upload_id(Ok(Some("upload-1".to_string()))).unwrap()
}

#[test]
fn object_reads_back_with_the_payload_in_place() {
    let existing: Vec<u8> = (0..200u8).collect();
    for (offset, payload) in [
        (0usize, vec![255u8; 1]),
        (0, vec![255; 200]),
        (17, vec![1, 2, 3]),
        (100, vec![9; 100]),
        (199, vec![0]),
    ] {
        let mut store = Store::holding(existing.clone());
        assert_eq!(modify(&mut store, offset as i64, payload.clone()), Ok(()));
        assert_eq!(store.object, patched(&existing, offset, &payload));
        assert_eq!(store.object.len(), existing.len());
    }
}

#[test]
fn requests_go_out_in_plan_order_numbered_from_one() {
    let mut store = Store::holding(vec![0; 50]);
    assert_eq!(modify(&mut store, 20, vec![1; 10]), Ok(()));
    assert_eq!(
        store.requests,
        vec![
            "copy 1 from /plots/plot.bin bytes=0-19".to_string(),
            "upload 2 of 10 bytes".to_string(),
            "copy 3 from /plots/plot.bin bytes=30-49".to_string(),
        ]
    );
}

#[test]
fn edit_of_the_whole_object_is_a_single_upload() {
    let mut store = Store::holding(vec![0; 5]);
    assert_eq!(modify(&mut store, 0, vec![1, 2, 3, 4, 5]), Ok(()));
    assert_eq!(store.requests, vec!["upload 1 of 5 bytes".to_string()]);
    assert_eq!(store.object, vec![1, 2, 3, 4, 5]);
}

#[test]
fn empty_edit_at_the_end_rewrites_the_object_unchanged() {
    let mut store = Store::holding(vec![6; 8]);
    assert_eq!(modify(&mut store, 8, vec![]), Ok(()));
    assert_eq!(store.requests, vec!["copy 1 from /plots/plot.bin bytes=0-7".to_string()]);
    assert_eq!(store.object, vec![6; 8]);
}

#[test]
fn empty_object_is_completed_without_parts() {
    let opening = lookup(0, vec![]).on_length(Ok(Some(0))).unwrap();
    match opening.on_upload_id(Ok(Some("upload-1".to_string()))).unwrap() {
        Progress::Complete(closing, upload) => {
            assert!(upload.parts().is_empty());
            assert_eq!(closing.on_completed(Ok(())), Ok(()));
        }
        Progress::Part(..) => panic!("expected the completion"),
    }
}

#[test]
fn edit_past_the_end_is_refused() {
    assert_eq!(
        lookup(95, vec![0; 10]).on_length(Ok(Some(100))).err(),
        Some(ModifyError::InvalidEditWindow)
    );
    assert_eq!(
        lookup(100, vec![0; 1]).on_length(Ok(Some(100))).err(),
        Some(ModifyError::InvalidEditWindow)
    );
    assert_eq!(
        lookup(0, vec![0; 1]).on_length(Ok(Some(0))).err(),
        Some(ModifyError::InvalidEditWindow)
    );
    assert_eq!(
        lookup(i64::MAX, vec![0; 2]).on_length(Ok(Some(i64::MAX))).err(),
        Some(ModifyError::InvalidEditWindow)
    );
    assert!(lookup(90, vec![0; 10]).on_length(Ok(Some(100))).is_ok());
}

#[test]
fn absent_object_is_reported() {
    assert_eq!(lookup(0, vec![1]).on_length(Ok(None)).err(), Some(ModifyError::ObjectNotFound));
}

#[test]
fn failed_lookup_is_reported() {
    assert_eq!(
        lookup(0, vec![1]).on_length(Err("connection reset".to_string())).err(),
        Some(ModifyError::StoreRequestFailed { message: "connection reset".to_string() })
    );
}

#[test]
fn missing_upload_id_is_reported() {
    let opening = lookup(0, vec![1]).on_length(Ok(Some(4))).unwrap();
    assert_eq!(opening.on_upload_id(Ok(None)).err(), Some(ModifyError::MissingUploadId));
}

#[test]
fn failed_upload_creation_is_reported() {
    let opening = lookup(0, vec![1]).on_length(Ok(Some(4))).unwrap();
    assert_eq!(
        opening.on_upload_id(Err("access denied".to_string())).err(),
        Some(ModifyError::StoreRequestFailed { message: "access denied".to_string() })
    );
}

#[test]
fn missing_part_tag_is_reported() {
    match first_part(0, vec![1], 4) {
        Progress::Part(transfer, _) => {
            assert_eq!(transfer.on_part(Ok(None)).err(), Some(ModifyError::MissingPartTag));
        }
        Progress::Complete(..) => panic!("expected a part"),
    }
}

#[test]
fn failed_part_ends_the_modification() {
    match first_part(2, vec![1], 4) {
        Progress::Part(transfer, _) => {
            assert!(!transfer.is_last());
            assert_eq!(
                transfer.on_part(Err("timed out".to_string())).err(),
                Some(ModifyError::StoreRequestFailed { message: "timed out".to_string() })
            );
        }
        Progress::Complete(..) => panic!("expected a part"),
    }
}

#[test]
fn failed_completion_is_reported() {
    let transfer = match first_part(0, vec![1, 2], 2) {
        Progress::Part(transfer, _) => transfer,
        Progress::Complete(..) => panic!("expected a part"),
    };
    assert!(transfer.is_last());
    match transfer.on_part(Ok(Some("tag-1".to_string()))).unwrap() {
        Progress::Complete(closing, _) => {
            assert_eq!(
                closing.on_completed(Err("internal error".to_string())),
                Err(ModifyError::StoreRequestFailed { message: "internal error".to_string() })
            );
        }
        Progress::Part(..) => panic!("expected the completion"),
    }
}

#[test]
fn empty_edit_inside_the_object_cannot_be_placed() {
    assert!(!lookup(3, vec![]).places_in(10));
    assert!(lookup(10, vec![]).places_in(10));
    assert!(lookup(-1, vec![]).places_in(10));
    assert!(lookup(3, vec![1]).places_in(10));
}

#[test]
fn large_object_is_copied_in_parts_of_one_gibibyte() {
    let mut progress = first_part(1_500_000_000, vec![7; 10], 3_000_000_000);
    let mut seen = Vec::new();
    loop {
        match progress {
            Progress::Part(transfer, request) => {
                seen.push(match request {
                    PartRequest::Upload { part_number, body } => {
                        format!("{} upload {:?}", part_number, body.bytes().unwrap())
                    }
                    PartRequest::Copy { part_number, copy_source_range, .. } => {
                        format!("{} copy {}", part_number, copy_source_range)
                    }
                });
                let tag = format!("tag-{}", transfer.in_flight());
                progress = transfer.on_part(Ok(Some(tag))).unwrap();
            }
            Progress::Complete(_, upload) => {
                assert_eq!(upload.parts().len(), 5);
                break;
            }
        }
    }
    assert_eq!(
        seen,
        vec![
            "1 copy bytes=0-1073741823".to_string(),
            "2 copy bytes=1073741824-1499999999".to_string(),
            "3 upload [7, 7, 7, 7, 7, 7, 7, 7, 7, 7]".to_string(),
            "4 copy bytes=1500000010-2573741833".to_string(),
            "5 copy bytes=2573741834-2999999999".to_string(),
        ]
    );
}
