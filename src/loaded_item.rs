use vstd::prelude::*;

verus! {

/// An in-memory object that may be shared with other parts of the system;
/// for now always an owned copy.
#[derive(Debug, PartialEq, Eq, PartialOrd, Ord)]
pub enum LoadedItem<T> {
    /// An owned copy of the object.
    Owned(Box<T>),
}

impl<T> LoadedItem<T> {
    /// The object held.
    pub open spec fn inner(&self) -> T {
        match self {
            LoadedItem::Owned(obj) => **obj,
        }
    }

    /// Holds `inner` as an owned copy.
    pub fn owned_new(inner: T) -> (r: Self)
        ensures
            r.inner() == inner,
    {
        LoadedItem::Owned(Box::new(inner))
    }

    /// Gives up the holder and returns the object.
    pub fn into_inner(self) -> (r: T)
        ensures
            r == self.inner(),
    {
        match self {
            LoadedItem::Owned(inner) => *inner,
        }
    }

    /// The object held, borrowed.
    pub fn get(&self) -> (r: &T)
        ensures
            *r == self.inner(),
    {
        match self {
            LoadedItem::Owned(obj) => &**obj,
        }
    }
}

impl<T> std::ops::Deref for LoadedItem<T> {
    type Target = T;

    fn deref(&self) -> &T {
        self.get()
    }
}

} // verus!
