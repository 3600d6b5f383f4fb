//! Plain records: a user account and a rectangle.

use vstd::prelude::*;

verus! {

/// A user account.
#[derive(Debug)]
pub struct User {
    pub active: bool,
    pub username: String,
    pub email: String,
    pub sign_in_count: u64,
}

/// A rectangle with whole-numbered sides.
#[derive(Debug)]
pub struct Rectangle {
    pub width: u32,
    pub height: u32,
}

impl Rectangle {
    /// The area. A rectangle whose area does not fit in 32 bits is left out.
    pub fn area(&self) -> (r: u32)
        requires
            self.width * self.height <= u32::MAX,
        ensures
            r == self.width * self.height,
    {
        self.width * self.height
    }

    /// Whether `other` fits inside, with room to spare on both sides.
    pub fn can_hold(&self, other: &Rectangle) -> (r: bool)
        ensures
            r == (self.width > other.width && self.height > other.height),
    {
        self.width > other.width && self.height > other.height
    }

    /// The square of the given side.
    pub fn square(size: u32) -> (r: Self)
        ensures
            r.width == size,
            r.height == size,
    {
        Self { width: size, height: size }
    }
}

/// A fresh account: active, and signed in once.
pub fn build_user(email: String, username: String) -> (r: User)
    ensures
        r.active,
        r.username == username,
        r.email == email,
        r.sign_in_count == 1,
{
    User { active: true, username, email, sign_in_count: 1 }
}

} // verus!
