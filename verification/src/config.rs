//! The configuration record that the service distributes to its clients, and
//! the exact JSON text it is framed as on the wire.

use vstd::prelude::*;
use vstd::string::StringExecFns;
use crate::json::{append_dec_u8, append_escaped, dec_u8, escape_string};

verus! {

/// One configuration value, immutable once constructed, cloned for each
/// broadcast and each per-client send.
#[derive(Debug)]
pub struct Config {
    /// Color of the balls (e.g. "green", "red", "blue").
    pub ball_color: String,
    /// Diameter of the balls in pixels.
    pub ball_size: u8,
    /// Speed of the balls' movement, in pixels per animation frame.
    pub ball_speed: u8,
    /// Total number of balls to display.
    pub number_of_balls: u8,
}

/// The exact JSON text of a `Config`: one object, fields in declaration
/// order, no added whitespace.
pub open spec fn config_json(c: Config) -> Seq<char> {
    "{\"ball_color\":\""@ + escape_string(c.ball_color@) + "\",\"ball_size\":"@ + dec_u8(
        c.ball_size as int,
    ) + ",\"ball_speed\":"@ + dec_u8(c.ball_speed as int) + ",\"number_of_balls\":"@ + dec_u8(
        c.number_of_balls as int,
    ) + "}"@
}

impl Config {
    /// Serializes the configuration as one compact JSON object.
    pub fn to_json(&self) -> (r: String)
        ensures
            r@ == config_json(*self),
    {
        let mut r = String::new();
        r.append("{\"ball_color\":\"");
        append_escaped(&mut r, self.ball_color.as_str());
        r.append("\",\"ball_size\":");
        append_dec_u8(&mut r, self.ball_size);
        r.append(",\"ball_speed\":");
        append_dec_u8(&mut r, self.ball_speed);
        r.append(",\"number_of_balls\":");
        append_dec_u8(&mut r, self.number_of_balls);
        r.append("}");
        proof {
            assert(r@ =~= config_json(*self));
        }
        r
    }
}

impl Clone for Config {
    /// A clone carries exactly the same fields.
    fn clone(&self) -> (r: Self)
        ensures
            r == *self,
    {
        Config {
            ball_color: self.ball_color.clone(),
            ball_size: self.ball_size,
            ball_speed: self.ball_speed,
            number_of_balls: self.number_of_balls,
        }
    }
}

impl PartialEq for Config {
    fn eq(&self, o: &Config) -> (r: bool) {
        self.ball_color == o.ball_color && self.ball_size == o.ball_size && self.ball_speed
            == o.ball_speed && self.number_of_balls == o.number_of_balls
    }
}

impl vstd::std_specs::cmp::PartialEqSpecImpl for Config {
    open spec fn obeys_eq_spec() -> bool {
        true
    }

    open spec fn eq_spec(&self, o: &Config) -> bool {
        self.ball_color@ == o.ball_color@ && self.ball_size == o.ball_size && self.ball_speed
            == o.ball_speed && self.number_of_balls == o.number_of_balls
    }
}

impl Eq for Config {

}

} // verus!
