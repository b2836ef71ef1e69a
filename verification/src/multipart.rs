//! A multipart form as the pipeline reads it: named fields with their
//! payloads, taken one after the other in the order they were sent.
use vstd::prelude::*;

verus! {

/// One part of a form: the name it declares, if it declares one, and its
/// payload.
#[derive(Clone, Debug, PartialEq, Eq)]
pub struct Field {
    pub name: Option<String>,
    pub data: Vec<u8>,
}

/// A [`Field`] as contracts see it.
pub ghost struct FieldModel {
    pub name: Option<Seq<char>>,
    pub data: Seq<u8>,
}

impl View for Field {
    type V = FieldModel;

    open spec fn view(&self) -> FieldModel {
        FieldModel {
            name: match self.name {
                Some(n) => Some(n@),
                None => None,
            },
            data: self.data@,
        }
    }
}

/// Whether `field` declares the name `name`.
pub open spec fn named(field: FieldModel, name: Seq<char>) -> bool {
    field.name == Some(name)
}

/// A form as a sequence of what its fields hold.
pub open spec fn form_of(fields: Seq<Field>) -> Seq<FieldModel> {
    Seq::new(fields.len(), |i: int| fields[i]@)
}

/// The fields of a form in the order they were sent, with the place up to
/// which they have been read.
#[derive(Debug)]
pub struct FieldStream {
    fields: Vec<Field>,
    taken: usize,
}

impl FieldStream {
    /// All fields of the form, read or not.
    pub closed spec fn fields(&self) -> Seq<FieldModel> {
        form_of(self.fields@)
    }

    /// The fields that have not been read yet, the next one first.
    pub closed spec fn remaining(&self) -> Seq<FieldModel> {
        if self.taken <= self.fields@.len() {
            Seq::new(
                (self.fields@.len() - self.taken) as nat,
                |i: int| self.fields@[self.taken + i]@,
            )
        } else {
            Seq::empty()
        }
    }

    /// A stream over `fields`, none of them read.
    pub fn new(fields: Vec<Field>) -> (s: FieldStream)
        ensures
            s.fields() == form_of(fields@),
            s.remaining() == form_of(fields@),
    {
        let s = FieldStream { fields, taken: 0 };
        assert(s.remaining() =~= form_of(fields@));
        s
    }

    /// Goes back to the first field: all of them are unread again.
    pub fn rewind(&mut self)
        ensures
            final(self).fields() == old(self).fields(),
            final(self).remaining() == old(self).fields(),
    {
        self.taken = 0;
        assert(self.remaining() =~= self.fields());
    }

    /// Whether every field has been read.
    pub fn is_exhausted(&self) -> (r: bool)
        ensures
            r == (self.remaining().len() == 0),
    {
        self.taken >= self.fields.len()
    }

    /// The next field, which stays unread. Call where one is left.
    pub fn peek(&self) -> (f: &Field)
        requires
            self.remaining().len() > 0,
        ensures
            f@ == self.remaining()[0],
    {
        &self.fields[self.taken]
    }

    /// Passes over the next field, if one is left.
    pub fn advance(&mut self)
        ensures
            final(self).fields() == old(self).fields(),
            final(self).remaining() == if old(self).remaining().len() > 0 {
                old(self).remaining().drop_first()
            } else {
                old(self).remaining()
            },
    {
        if self.taken < self.fields.len() {
            self.taken = self.taken + 1;
            assert(self.remaining() =~= old(self).remaining().drop_first());
        } else {
            assert(self.remaining() =~= old(self).remaining());
        }
    }
}

} // verus!
