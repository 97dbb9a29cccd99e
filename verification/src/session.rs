use vstd::prelude::*;
use aws_sdk_s3::types::CompletedMultipartUpload;
use crate::assembler::{assemble, consecutive, entries, numbered, tags_of, PartResult};
use crate::edit::Part;
use crate::error::ModifyError;
use crate::object::{ObjectDescriptor, ObjectView};
use crate::planner::{plan_of, plan_segments, PART_SIZE};
use crate::request::{part_request, request_for, PartRequest};
use crate::sdk::completed_parts;
use crate::segment::{views, Segment, SegmentView};
use crate::tiling::plan_is_well_formed;

verus! {

/// A modification that waits for the length of its object.
///
/// The driver asks the store to describe the object and hands the answer
/// to [`Lookup::on_length`].
pub struct Lookup {
    bucket: String,
    key: String,
    edit: Part,
}

/// A modification that is planned and waits for its multipart upload to be
/// opened.
///
/// The driver asks the store to create a multipart upload for the object
/// and hands the answer to [`Opening::on_upload_id`].
pub struct Opening {
    object: ObjectDescriptor,
    plan: Vec<Segment>,
}

/// A modification with one part in flight.
///
/// The driver performs the part request it was given together with this
/// state and hands the answer to [`Transfer::on_part`]. Only then does it
/// learn the next request, so parts go out one at a time, in order.
pub struct Transfer {
    object: ObjectDescriptor,
    upload_id: String,
    pending: Vec<Segment>,
    results: Vec<PartResult>,
    plan: Ghost<Seq<SegmentView>>,
}

/// A modification whose parts are all stored and that waits for the store
/// to complete the upload.
///
/// The driver sends the completion it was given together with this state
/// and hands the answer to [`Closing::on_completed`].
pub struct Closing {
    object: ObjectDescriptor,
    upload_id: String,
}

/// What the driver does next once an upload is open or a part is stored.
pub enum Progress {
    /// Perform the part request, then report to the transfer.
    Part(Transfer, PartRequest),
    /// Complete the upload with the listed parts, then report to the
    /// closing.
    Complete(Closing, CompletedMultipartUpload),
}

/// Whether `progress` is the step that follows in the transfer of `plan`
/// once the parts recorded in `results` are stored.
///
/// While the plan has a segment without a result, the first such segment
/// is requested, under the number of its place in the plan. Once every
/// segment has its result, the upload is completed with the recorded tags,
/// numbered by their place.
pub open spec fn follows(
    progress: Progress,
    object: ObjectView,
    upload_id: Seq<char>,
    plan: Seq<SegmentView>,
    results: Seq<(int, Seq<char>)>,
) -> bool {
    match progress {
        Progress::Part(transfer, request) => {
            &&& results.len() < plan.len()
            &&& consecutive(results)
            &&& transfer.object() == object
            &&& transfer.upload_id() == upload_id
            &&& transfer.plan() == plan
            &&& transfer.results() == results
            &&& request@ == request_for(
                object.bucket,
                object.key,
                plan[results.len() as int],
                (results.len() + 1) as int,
            )
        },
        Progress::Complete(closing, upload) => {
            &&& results.len() == plan.len()
            &&& consecutive(results)
            &&& closing.object() == object
            &&& closing.upload_id() == upload_id
            &&& completed_parts(upload) == numbered(tags_of(results))
        },
    }
}

impl Lookup {
    pub closed spec fn bucket(&self) -> Seq<char> {
        self.bucket@
    }

    pub closed spec fn key(&self) -> Seq<char> {
        self.key@
    }

    pub closed spec fn edit(&self) -> Part {
        self.edit
    }

    /// Whether the edit can be laid out in an object of `length` bytes
    /// should it fit: an edit that starts at a byte of the object has to
    /// replace at least one byte.
    pub open spec fn can_place(&self, length: int) -> bool {
        self.edit().starts_inside(length) ==> self.edit().payload().len() > 0
    }

    /// Begins the modification of the object `key` in `bucket` by `edit`.
    pub fn new(bucket: String, key: String, edit: Part) -> (lookup: Lookup)
        ensures
            lookup.bucket() == bucket@,
            lookup.key() == key@,
            lookup.edit() == edit,
    {
        Lookup { bucket, key, edit }
    }

    /// Decides whether the edit can be laid out in an object of `length`
    /// bytes should it fit.
    pub fn places_in(&self, length: i64) -> (ok: bool)
        ensures
            ok == self.can_place(length as int),
    {
        !self.edit.is_empty() || self.edit.index() < 0 || self.edit.index() >= length
    }

    /// Takes the store's description of the object: its length, `None` if
    /// the store has no such object or did not say how long it is, or the
    /// reason why the request failed.
    ///
    /// An edit that reaches past the end of the object is refused before
    /// anything at the store is touched: no state comes back from which a
    /// request could follow.
    pub fn on_length(self, reply: Result<Option<i64>, String>) -> (next: Result<
        Opening,
        ModifyError,
    >)
        requires
            reply matches Ok(Some(length)) ==> self.can_place(length as int),
        ensures
            match reply {
                Err(message) => next == Err::<Opening, ModifyError>(
                    ModifyError::StoreRequestFailed { message },
                ),
                Ok(None) => next == Err::<Opening, ModifyError>(ModifyError::ObjectNotFound),
                Ok(Some(length)) => if self.edit().fits(length as int) {
                    &&& next matches Ok(opening)
                    &&& opening.object() == (ObjectView {
                        bucket: self.bucket(),
                        key: self.key(),
                        total_length: length as int,
                    })
                    &&& opening.plan() == plan_of(
                        length as int,
                        PART_SIZE as int,
                        self.edit().offset(),
                        self.edit().payload(),
                    )
                } else {
                    next == Err::<Opening, ModifyError>(ModifyError::InvalidEditWindow)
                },
            },
    {
        let Lookup { bucket, key, edit } = self;
        match reply {
            Err(message) => Err(ModifyError::StoreRequestFailed { message }),
            Ok(None) => Err(ModifyError::ObjectNotFound),
            Ok(Some(length)) => {
                if !edit.fits_within(length) {
                    return Err(ModifyError::InvalidEditWindow);
                }
                proof {
                    plan_is_well_formed(
                        length as int,
                        PART_SIZE as int,
                        edit.offset(),
                        edit.payload(),
                    );
                }
                let plan = plan_segments(length, PART_SIZE, edit);
                assert forall|i: int| 0 <= i < plan@.len() implies (
                #[trigger] plan@[i])@.well_formed() by {
                    assert(plan@[i]@ == views(plan@)[i]);
                }
                Ok(Opening { object: ObjectDescriptor { bucket, key, total_length: length }, plan })
            },
        }
    }
}

impl Opening {
    #[verifier::type_invariant]
    spec fn well_formed(&self) -> bool {
        forall|i: int| 0 <= i < self.plan@.len() ==> (#[trigger] self.plan@[i])@.well_formed()
    }

    pub closed spec fn object(&self) -> ObjectView {
        self.object@
    }

    /// The segments to transfer, in order.
    pub closed spec fn plan(&self) -> Seq<SegmentView> {
        views(self.plan@)
    }

    /// The object under modification.
    pub fn descriptor(&self) -> (object: &ObjectDescriptor)
        ensures
            object@ == self.object(),
    {
        &self.object
    }

    /// Takes the store's answer to the creation of the multipart upload:
    /// the upload's identifier, `None` if the store named none, or the
    /// reason why the request failed.
    pub fn on_upload_id(self, reply: Result<Option<String>, String>) -> (next: Result<
        Progress,
        ModifyError,
    >)
        ensures
            match reply {
                Err(message) => next == Err::<Progress, ModifyError>(
                    ModifyError::StoreRequestFailed { message },
                ),
                Ok(None) => next == Err::<Progress, ModifyError>(ModifyError::MissingUploadId),
                Ok(Some(upload_id)) => {
                    &&& next matches Ok(progress)
                    &&& follows(progress, self.object(), upload_id@, self.plan(), Seq::empty())
                },
            },
    {
        proof {
            use_type_invariant(&self);
        }
        let Opening { object, plan } = self;
        match reply {
            Err(message) => Err(ModifyError::StoreRequestFailed { message }),
            Ok(None) => Err(ModifyError::MissingUploadId),
            Ok(Some(upload_id)) => {
                let results: Vec<PartResult> = Vec::new();
                assert(entries(results@) =~= Seq::empty());
                let ghost whole = views(plan@);
                assert(whole.skip(0) =~= whole);
                Ok(advance(object, upload_id, plan, results, Ghost(whole)))
            },
        }
    }
}

impl Transfer {
    #[verifier::type_invariant]
    spec fn well_formed(&self) -> bool {
        &&& self.results@.len() < i32::MAX
        &&& self.results@.len() < self.plan@.len()
        &&& consecutive(entries(self.results@))
        &&& views(self.pending@) == self.plan@.skip((self.results@.len() + 1) as int)
        &&& forall|i: int|
            0 <= i < self.pending@.len() ==> (#[trigger] self.pending@[i])@.well_formed()
    }

    pub closed spec fn object(&self) -> ObjectView {
        self.object@
    }

    pub closed spec fn upload_id(&self) -> Seq<char> {
        self.upload_id@
    }

    /// The segments of the whole transfer, in order.
    pub closed spec fn plan(&self) -> Seq<SegmentView> {
        self.plan@
    }

    /// The number and tag of each part that the store has confirmed, in
    /// order.
    pub closed spec fn results(&self) -> Seq<(int, Seq<char>)> {
        entries(self.results@)
    }

    /// The number of the part in flight: one more than the number of parts
    /// confirmed.
    pub open spec fn part_number(&self) -> int {
        (self.results().len() + 1) as int
    }

    /// Whether the part in flight is the last of the plan.
    pub open spec fn on_last_part(&self) -> bool {
        self.part_number() == self.plan().len()
    }

    /// The object under modification.
    pub fn descriptor(&self) -> (object: &ObjectDescriptor)
        ensures
            object@ == self.object(),
    {
        &self.object
    }

    /// The identifier of the open upload.
    pub fn upload(&self) -> (upload_id: &String)
        ensures
            upload_id@ == self.upload_id(),
    {
        &self.upload_id
    }

    /// The number of the part in flight.
    pub fn in_flight(&self) -> (number: i32)
        ensures
            number == self.part_number(),
    {
        proof {
            use_type_invariant(self);
        }
        (self.results.len() + 1) as i32
    }

    /// Whether the part in flight is the last of the plan.
    pub fn is_last(&self) -> (last: bool)
        ensures
            last == self.on_last_part(),
    {
        proof {
            use_type_invariant(self);
            assert(views(self.pending@).len() == self.pending@.len());
        }
        self.pending.len() == 0
    }

    /// Takes the store's answer to the part in flight: the part's tag,
    /// `None` if the store returned none, or the reason why the request
    /// failed.
    ///
    /// A failure ends the modification at once: no state comes back, so no
    /// later part is requested and the upload is not completed.
    ///
    /// The store counts parts in 32 bits, so a part that is not the last
    /// needs a number below the largest one.
    pub fn on_part(self, reply: Result<Option<String>, String>) -> (next: Result<
        Progress,
        ModifyError,
    >)
        requires
            !self.on_last_part() ==> self.part_number() < i32::MAX,
        ensures
            match reply {
                Err(message) => next == Err::<Progress, ModifyError>(
                    ModifyError::StoreRequestFailed { message },
                ),
                Ok(None) => next == Err::<Progress, ModifyError>(ModifyError::MissingPartTag),
                Ok(Some(tag)) => {
                    &&& next matches Ok(progress)
                    &&& follows(
                        progress,
                        self.object(),
                        self.upload_id(),
                        self.plan(),
                        self.results().push((self.part_number(), tag@)),
                    )
                },
            },
    {
        proof {
            use_type_invariant(&self);
            assert(views(self.pending@).len() == self.pending@.len());
        }
        let Transfer { object, upload_id, pending, mut results, plan } = self;
        match reply {
            Err(message) => Err(ModifyError::StoreRequestFailed { message }),
            Ok(None) => Err(ModifyError::MissingPartTag),
            Ok(Some(tag)) => {
                let ghost before = entries(results@);
                let part_number: i32 = (results.len() + 1) as i32;
                results.push(PartResult { part_number, tag });
                assert(entries(results@) =~= before.push((part_number as int, tag@)));
                Ok(advance(object, upload_id, pending, results, plan))
            },
        }
    }
}

impl Closing {
    pub closed spec fn object(&self) -> ObjectView {
        self.object@
    }

    pub closed spec fn upload_id(&self) -> Seq<char> {
        self.upload_id@
    }

    /// The object under modification.
    pub fn descriptor(&self) -> (object: &ObjectDescriptor)
        ensures
            object@ == self.object(),
    {
        &self.object
    }

    /// The identifier of the upload to complete.
    pub fn upload(&self) -> (upload_id: &String)
        ensures
            upload_id@ == self.upload_id(),
    {
        &self.upload_id
    }

    /// Takes the store's answer to the completion: the modification has
    /// gone through, or the reason why the request failed.
    pub fn on_completed(self, reply: Result<(), String>) -> (outcome: Result<(), ModifyError>)
        ensures
            match reply {
                Err(message) => outcome == Err::<(), ModifyError>(
                    ModifyError::StoreRequestFailed { message },
                ),
                Ok(_) => outcome == Ok::<(), ModifyError>(()),
            },
    {
        match reply {
            Err(message) => Err(ModifyError::StoreRequestFailed { message }),
            Ok(_) => Ok(()),
        }
    }
}

/// Requests the first pending segment, or completes the upload if none is
/// pending.
fn advance(
    object: ObjectDescriptor,
    upload_id: String,
    pending: Vec<Segment>,
    results: Vec<PartResult>,
    plan: Ghost<Seq<SegmentView>>,
) -> (progress: Progress)
    requires
        results@.len() <= i32::MAX,
        pending@.len() > 0 ==> results@.len() < i32::MAX,
        results@.len() <= plan@.len(),
        consecutive(entries(results@)),
        views(pending@) == plan@.skip(results@.len() as int),
        forall|i: int| 0 <= i < pending@.len() ==> (#[trigger] pending@[i])@.well_formed(),
    ensures
        follows(progress, object@, upload_id@, plan@, entries(results@)),
{
    let mut pending = pending;
    assert(views(pending@).len() == pending@.len());
    if pending.len() == 0 {
        let upload = assemble(&results);
        Progress::Complete(Closing { object, upload_id }, upload)
    } else {
        let ghost rest = views(pending@);
        let segment = pending.remove(0);
        assert(views(pending@) =~= rest.skip(1));
        assert(rest.skip(1) =~= plan@.skip((results@.len() + 1) as int));
        assert(segment@ == rest[0]);
        let part_number: i32 = (results.len() + 1) as i32;
        let request = part_request(&object, segment, part_number);
        Progress::Part(Transfer { object, upload_id, pending, results, plan }, request)
    }
}

} // verus!
