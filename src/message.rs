use vstd::prelude::*;
use vstd::utf8::*;
use crate::codec::utf8_bytes;

verus! {

/// A message handed to the producer: a payload plus routing metadata.
pub struct Message {
    pub topic: String,
    pub tag: String,
    pub properties: Vec<(String, String)>,
    pub body: Vec<u8>,
}

impl Message {
    /// Every field fits the four-byte length prefix of the wire format.
    pub open spec fn well_formed(&self) -> bool {
        &&& encode_utf8(self.topic@).len() <= u32::MAX
        &&& encode_utf8(self.tag@).len() <= u32::MAX
        &&& self.properties@.len() <= u32::MAX
        &&& forall|i: int|
            0 <= i < self.properties@.len() ==> encode_utf8(#[trigger] self.properties@[i].0@).len()
                <= u32::MAX && encode_utf8(self.properties@[i].1@).len() <= u32::MAX
        &&& self.body@.len() <= u32::MAX
    }

    /// Whether the message can be framed.
    pub fn is_well_formed(&self) -> (r: bool)
        ensures
            r == self.well_formed(),
    {
        if utf8_bytes(&self.topic).len() > u32::MAX as usize || utf8_bytes(&self.tag).len()
            > u32::MAX as usize || self.properties.len() > u32::MAX as usize || self.body.len()
            > u32::MAX as usize {
            return false;
        }
        let mut i: usize = 0;
        while i < self.properties.len()
            invariant
                i <= self.properties@.len(),
                forall|j: int|
                    0 <= j < i ==> encode_utf8(#[trigger] self.properties@[j].0@).len()
                        <= u32::MAX && encode_utf8(self.properties@[j].1@).len() <= u32::MAX,
            decreases self.properties@.len() - i,
        {
            if utf8_bytes(&self.properties[i].0).len() > u32::MAX as usize || utf8_bytes(
                &self.properties[i].1,
            ).len() > u32::MAX as usize {
                return false;
            }
            i = i + 1;
        }
        true
    }

    /// A message on `topic` with the given payload, no tag and no properties.
    pub fn new(topic: &str, body: Vec<u8>) -> (r: Message)
        ensures
            r.topic@ == topic@,
            r.tag@ == Seq::<char>::empty(),
            r.properties@.len() == 0,
            r.body@ == body@,
    {
        Message { topic: topic.to_owned(), tag: String::new(), properties: Vec::new(), body }
    }
}

} // verus!
