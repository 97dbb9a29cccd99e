use vstd::prelude::*;

verus! {

/// The body of a request, as the store's client takes it.
#[verifier::external_type_specification]
#[verifier::external_body]
pub struct ExByteStream(aws_sdk_s3::primitives::ByteStream);

/// The list of parts of a completion while it is being put together.
#[verifier::external_type_specification]
#[verifier::external_body]
pub struct ExCompletedMultipartUploadBuilder(
    aws_sdk_s3::types::builders::CompletedMultipartUploadBuilder,
);

/// The list of parts that completes a multipart upload.
#[verifier::external_type_specification]
#[verifier::external_body]
pub struct ExCompletedMultipartUpload(aws_sdk_s3::types::CompletedMultipartUpload);

/// The bytes that a request body holds.
pub uninterp spec fn stream_bytes(stream: aws_sdk_s3::primitives::ByteStream) -> Seq<u8>;

/// The part numbers and tags that a completion in the making lists so
/// far, in order.
pub uninterp spec fn listed_parts(
    builder: aws_sdk_s3::types::builders::CompletedMultipartUploadBuilder,
) -> Seq<(int, Seq<char>)>;

/// The part numbers and tags that a completion lists, in order.
pub uninterp spec fn completed_parts(
    upload: aws_sdk_s3::types::CompletedMultipartUpload,
) -> Seq<(int, Seq<char>)>;

/// `ByteStream::from` on a vector of bytes. Trusted: the body holds exactly
/// the bytes of the vector, which it takes over.
#[verifier::external_body]
pub(crate) fn body_from(bytes: Vec<u8>) -> (body: aws_sdk_s3::primitives::ByteStream)
    ensures
        stream_bytes(body) == bytes@,
{
    aws_sdk_s3::primitives::ByteStream::from(bytes)
}

/// `CompletedMultipartUpload::builder()` with `set_parts` on an empty
/// list. Trusted: the completion in the making lists no part.
#[verifier::external_body]
pub(crate) fn empty_completion() -> (builder:
    aws_sdk_s3::types::builders::CompletedMultipartUploadBuilder)
    ensures
        listed_parts(builder) == Seq::<(int, Seq<char>)>::empty(),
{
    aws_sdk_s3::types::CompletedMultipartUpload::builder().set_parts(Some(Vec::new()))
}

/// `CompletedMultipartUploadBuilder::parts` on a part made by
/// `CompletedPart::builder()` with `part_number` and `e_tag` set. Trusted:
/// the part, with that number and that tag, is appended to the list.
#[verifier::external_body]
pub(crate) fn with_part(
    builder: aws_sdk_s3::types::builders::CompletedMultipartUploadBuilder,
    part_number: i32,
    tag: String,
) -> (next: aws_sdk_s3::types::builders::CompletedMultipartUploadBuilder)
    ensures
        listed_parts(next) == listed_parts(builder).push((part_number as int, tag@)),
{
    builder.parts(
        aws_sdk_s3::types::CompletedPart::builder().part_number(part_number).e_tag(tag).build(),
    )
}

/// `CompletedMultipartUploadBuilder::build`. Trusted: the completion lists
/// the parts that were put into it, in their order.
#[verifier::external_body]
pub(crate) fn build_completion(
    builder: aws_sdk_s3::types::builders::CompletedMultipartUploadBuilder,
) -> (upload: aws_sdk_s3::types::CompletedMultipartUpload)
    ensures
        completed_parts(upload) == listed_parts(builder),
{
    builder.build()
}

} // verus!
