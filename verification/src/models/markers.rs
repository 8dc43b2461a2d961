//! Typed ids: an id carries the kind of entity it names.

use core::cmp::Ordering;
use core::marker::PhantomData;
use vstd::std_specs::cmp::PartialOrdSpecImpl;
use vstd::prelude::*;

verus! {

/// An id tagged with the kind of entity it names. Ids compare and order
/// as their numbers.
#[derive(Debug, Hash, Ord)]
pub struct Id<T> {
    pub value: i32,
    pub _marker: PhantomData<T>,
}

impl<T> Id<T> {
    /// The id with number `v`.
    pub fn new(v: i32) -> (id: Self)
        ensures
            id.value == v,
    {
        Id { value: v, _marker: PhantomData }
    }
}

impl<T> Clone for Id<T> {
    fn clone(&self) -> (res: Self)
        ensures
            res == *self,
    {
        Id { value: self.value, _marker: PhantomData }
    }
}

impl<T> Copy for Id<T> {
}

impl<T> PartialEq for Id<T> {
    fn eq(&self, other: &Self) -> (res: bool) {
        self.value == other.value
    }
}

impl<T> vstd::std_specs::cmp::PartialEqSpecImpl for Id<T> {
    open spec fn obeys_eq_spec() -> bool {
        true
    }

    open spec fn eq_spec(&self, other: &Self) -> bool {
        self.value == other.value
    }
}

impl<T> Eq for Id<T> {
}

impl<T> PartialOrd for Id<T> {
    fn partial_cmp(&self, other: &Self) -> (res: Option<Ordering>) {
        if self.value < other.value {
            Some(Ordering::Less)
        } else if self.value > other.value {
            Some(Ordering::Greater)
        } else {
            Some(Ordering::Equal)
        }
    }
}

impl<T> PartialOrdSpecImpl for Id<T> {
    open spec fn obeys_partial_cmp_spec() -> bool {
        true
    }

    open spec fn partial_cmp_spec(&self, other: &Self) -> Option<Ordering> {
        if self.value < other.value {
            Some(Ordering::Less)
        } else if self.value > other.value {
            Some(Ordering::Greater)
        } else {
            Some(Ordering::Equal)
        }
    }
}

/// Something that has an id of kind `T`.
pub trait TaggedEntity<T> {
    fn tagged_id(&self) -> Id<T>;
}

#[derive(Debug, Clone, Copy, PartialEq, Eq, Structural, PartialOrd, Ord, Hash)]
pub struct User;

pub type UserId = Id<User>;

#[derive(Debug, Clone, Copy, PartialEq, Eq, Structural, PartialOrd, Ord, Hash)]
pub struct Media;

pub type MediaId = Id<Media>;

#[derive(Debug, Clone, Copy, PartialEq, Eq, Structural, PartialOrd, Ord, Hash)]
pub struct Message;

pub type MsgId = Id<Message>;

#[derive(Debug, Clone, Copy, PartialEq, Eq, Structural, PartialOrd, Ord, Hash)]
pub struct VoiceChannel;

pub type VoiceChannelId = Id<VoiceChannel>;

#[derive(Debug, Clone, Copy, PartialEq, Eq, Structural, PartialOrd, Ord, Hash)]
pub struct TextChannel;

pub type TextChannelId = Id<TextChannel>;

#[derive(Debug, Clone, Copy, PartialEq, Eq, Structural, PartialOrd, Ord, Hash)]
pub struct Group;

pub type GroupId = Id<Group>;

} // verus!
