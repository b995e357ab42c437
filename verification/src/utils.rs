use vstd::prelude::*;

verus! {

/// The red, green and blue channels a density maps to: densities are clamped
/// to the neighbor cap, red grows with the density, blue shrinks, and green
/// peaks in the middle. The divisions by six come last so every channel is
/// exact.
pub open spec fn density_color(d: int) -> (int, int, int) {
    let c = if d > 6 {
        6int
    } else {
        d
    };
    let rn = 255 * c;
    let bn = 1530 - rn;
    let spread = if 2 * rn >= 1530 {
        2 * rn - 1530
    } else {
        1530 - 2 * rn
    };
    (rn / 6, (1530 - spread) / 6, bn / 6)
}

/// Presentation helpers with no state of their own.
#[derive(Debug)]
pub struct Utils;

impl Utils {
    /// The red, green and blue channel of the color for a density.
    pub fn density_to_color(density: usize) -> (r: (u8, u8, u8))
        ensures
            r.0 == density_color(density as int).0,
            r.1 == density_color(density as int).1,
            r.2 == density_color(density as int).2,
    {
        let c: u64 = if density > 6 {
            6
        } else {
            density as u64
        };
        let rn: u64 = 255 * c;
        let bn: u64 = 1530 - rn;
        let spread: u64 = if 2 * rn >= 1530 {
            2 * rn - 1530
        } else {
            1530 - 2 * rn
        };
        let red: u64 = rn / 6;
        let blue: u64 = bn / 6;
        let green: u64 = (1530 - spread) / 6;
        (red as u8, green as u8, blue as u8)
    }
}

} // verus!
