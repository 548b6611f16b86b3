//! The signal path of a stereo chorus, in integer arithmetic.
//!
//! A chorus plays a sound together with copies of itself whose delays sway
//! slowly around a base delay. Here each channel has three delay lines, each
//! read at a tap that its own low-frequency oscillator moves; the output of
//! the channel is fed back into the lines, and the mean of the taps is mixed
//! with the direct signal.
//!
//! Samples are integers. Control values are fixed-point numbers with six
//! decimal places, so that `fixed::ONE` stands for 1.0.
//!
//! - `fixed`: the fixed-point unit and the rounding divisions.
//! - `delay_line`: the circular buffer behind every delay.
//! - `feedback`: the history of the output.
//! - `sine`: the waveform of the oscillators.
//! - `lfo`: the oscillators.
//! - `params`: the control values and the lengths that follow from them.
//! - `model`: one channel as a function from state and input to state and
//!   output.
//! - `theorems`: what holds of every run of that function.
//! - `engine`: one channel as executable code that follows the model.
//! - `stereo`: a left and a right channel.

pub mod delay_line;
pub mod engine;
pub mod feedback;
pub mod fixed;
pub mod lfo;
pub mod model;
pub mod params;
pub mod sine;
pub mod stereo;
pub mod theorems;
