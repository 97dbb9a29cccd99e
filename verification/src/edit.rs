use vstd::prelude::*;

verus! {

/// One edit: replacement bytes and the position in the object at which they
/// are to be written.
#[derive(Debug)]
pub struct Part {
    index: i64,
    data: Vec<u8>,
}

impl Part {
    /// The position of the first replaced byte.
    pub closed spec fn offset(&self) -> int {
        self.index as int
    }

    /// The replacement bytes.
    pub closed spec fn payload(&self) -> Seq<u8> {
        self.data@
    }

    /// One past the position of the last replaced byte.
    pub open spec fn end(&self) -> int {
        self.offset() + self.payload().len()
    }

    /// Whether the edit lies within an object of `total_length` bytes.
    pub open spec fn fits(&self, total_length: int) -> bool {
        self.end() <= total_length
    }

    /// Whether the edit starts at a byte that an object of `total_length`
    /// bytes has.
    pub open spec fn starts_inside(&self, total_length: int) -> bool {
        0 <= self.offset() < total_length
    }

    /// Whether the edit can be planned against an object of `total_length`
    /// bytes: it fits, and if it starts at a byte of the object it replaces
    /// at least one byte.
    pub open spec fn plannable(&self, total_length: int) -> bool {
        &&& self.fits(total_length)
        &&& self.starts_inside(total_length) ==> self.payload().len() > 0
    }

    /// The edit that writes `data` over the bytes from position `index` on.
    pub fn new(index: i64, data: Vec<u8>) -> (part: Part)
        ensures
            part.offset() == index,
            part.payload() == data@,
    {
        Part { index, data }
    }

    /// The position of the first replaced byte.
    pub fn index(&self) -> (index: i64)
        ensures
            index == self.offset(),
    {
        self.index
    }

    /// The number of replacement bytes.
    pub fn len(&self) -> (len: usize)
        ensures
            len == self.payload().len(),
    {
        self.data.len()
    }

    /// Whether the edit replaces no byte.
    pub fn is_empty(&self) -> (empty: bool)
        ensures
            empty == (self.payload().len() == 0),
    {
        self.data.len() == 0
    }

    /// Gives up the replacement bytes.
    pub fn into_data(self) -> (data: Vec<u8>)
        ensures
            data@ == self.payload(),
    {
        self.data
    }

    /// Decides whether the edit fits an object of `total_length` bytes.
    pub fn fits_within(&self, total_length: i64) -> (fits: bool)
        ensures
            fits == self.fits(total_length as int),
    {
        let len: usize = self.data.len();
        let end: i128 = self.index as i128 + len as i128;
        end <= total_length as i128
    }

    /// Decides whether the edit can be planned against an object of
    /// `total_length` bytes.
    pub fn is_plannable(&self, total_length: i64) -> (plannable: bool)
        ensures
            plannable == self.plannable(total_length as int),
    {
        let inside: bool = 0 <= self.index && self.index < total_length;
        self.fits_within(total_length) && (!inside || self.data.len() > 0)
    }
}

} // verus!
