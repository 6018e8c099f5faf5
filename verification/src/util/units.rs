//! The binary size units for each integer type that can count bytes.

use vstd::prelude::*;
use crate::util::Units;

verus! {

impl Units for u16 {
    open spec fn amount(&self) -> int {
        *self as int
    }

    open spec fn holds(amount: int) -> bool {
        u16::MIN <= amount <= u16::MAX
    }

    fn KiB(&self) -> (bytes: Self) {
        *self * 1024
    }

    fn MiB(&self) -> (bytes: Self) {
        self.KiB() * 1024
    }

    fn GiB(&self) -> (bytes: Self) {
        self.MiB() * 1024
    }
}

impl Units for u32 {
    open spec fn amount(&self) -> int {
        *self as int
    }

    open spec fn holds(amount: int) -> bool {
        u32::MIN <= amount <= u32::MAX
    }

    fn KiB(&self) -> (bytes: Self) {
        *self * 1024
    }

    fn MiB(&self) -> (bytes: Self) {
        self.KiB() * 1024
    }

    fn GiB(&self) -> (bytes: Self) {
        self.MiB() * 1024
    }
}

impl Units for u64 {
    open spec fn amount(&self) -> int {
        *self as int
    }

    open spec fn holds(amount: int) -> bool {
        u64::MIN <= amount <= u64::MAX
    }

    fn KiB(&self) -> (bytes: Self) {
        *self * 1024
    }

    fn MiB(&self) -> (bytes: Self) {
        self.KiB() * 1024
    }

    fn GiB(&self) -> (bytes: Self) {
        self.MiB() * 1024
    }
}

impl Units for usize {
    open spec fn amount(&self) -> int {
        *self as int
    }

    open spec fn holds(amount: int) -> bool {
        usize::MIN <= amount <= usize::MAX
    }

    fn KiB(&self) -> (bytes: Self) {
        *self * 1024
    }

    fn MiB(&self) -> (bytes: Self) {
        self.KiB() * 1024
    }

    fn GiB(&self) -> (bytes: Self) {
        self.MiB() * 1024
    }
}

impl Units for i16 {
    open spec fn amount(&self) -> int {
        *self as int
    }

    open spec fn holds(amount: int) -> bool {
        i16::MIN <= amount <= i16::MAX
    }

    fn KiB(&self) -> (bytes: Self) {
        *self * 1024
    }

    fn MiB(&self) -> (bytes: Self) {
        self.KiB() * 1024
    }

    fn GiB(&self) -> (bytes: Self) {
        self.MiB() * 1024
    }
}

impl Units for i32 {
    open spec fn amount(&self) -> int {
        *self as int
    }

    open spec fn holds(amount: int) -> bool {
        i32::MIN <= amount <= i32::MAX
    }

    fn KiB(&self) -> (bytes: Self) {
        *self * 1024
    }

    fn MiB(&self) -> (bytes: Self) {
        self.KiB() * 1024
    }

    fn GiB(&self) -> (bytes: Self) {
        self.MiB() * 1024
    }
}

impl Units for i64 {
    open spec fn amount(&self) -> int {
        *self as int
    }

    open spec fn holds(amount: int) -> bool {
        i64::MIN <= amount <= i64::MAX
    }

    fn KiB(&self) -> (bytes: Self) {
        *self * 1024
    }

    fn MiB(&self) -> (bytes: Self) {
        self.KiB() * 1024
    }

    fn GiB(&self) -> (bytes: Self) {
        self.MiB() * 1024
    }
}

impl Units for isize {
    open spec fn amount(&self) -> int {
        *self as int
    }

    open spec fn holds(amount: int) -> bool {
        isize::MIN <= amount <= isize::MAX
    }

    fn KiB(&self) -> (bytes: Self) {
        *self * 1024
    }

    fn MiB(&self) -> (bytes: Self) {
        self.KiB() * 1024
    }

    fn GiB(&self) -> (bytes: Self) {
        self.MiB() * 1024
    }
}

} // verus!
