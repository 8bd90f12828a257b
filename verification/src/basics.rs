//! Small examples of the ownership and unsafe chapters.
use vstd::prelude::*;

verus! {

/// Length of a borrowed vector; the borrow ends when the call returns.
pub fn calculate_len(v: &Vec<u32>) -> (n: usize)
    ensures
        n == v@.len(),
{
    v.len()
}

/// Stand-in for the C routine that drives a GPIO pin; it accepts a level of 0 or 1.
fn gpio_write_stub(_pin: u32, _val: u32)
    requires
        _val <= 1,
{
}

/// Drives GPIO pin `pin` high or low through the C-style routine, passing the level as 1 or 0.
pub fn gpio_write(pin: u32, high: bool) {
    gpio_write_stub(pin, if high { 1 } else { 0 })
}

} // verus!
