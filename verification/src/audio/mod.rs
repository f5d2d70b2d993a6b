//! Sound in: devices, files, the microphone and what is made of them.

pub mod decode;
pub mod mic;
pub mod preview;
pub mod ptt;
pub mod resample;

use vstd::prelude::*;
use vstd::string::*;

use crate::order::{in_order, tidied, without_repeats};
use crate::text::{
    decimal, decimal_of, decimals_read_back, is_blank, number_in, same_text, trim, views,
};

verus! {

/// The input device to record from.
pub struct InputDeviceSelection {
    /// The device's place in the list of devices; `None` for the system default.
    pub device: Option<usize>,
    pub name: String,
    pub used_fallback: bool,
}

/// The names that could be read.
pub open spec fn readable(names: Seq<Option<String>>) -> Seq<Seq<char>>
    decreases names.len(),
{
    if names.len() == 0 {
        seq![]
    } else {
        match names.last() {
            Some(n) => readable(names.drop_last()).push(n@),
            None => readable(names.drop_last()),
        }
    }
}

/// The names of the input devices as they are offered: those that can be read, sorted without
/// regard to case, each once where equal names stand together.
pub fn input_device_names(listed: &Vec<Option<String>>) -> (r: Vec<String>)
    ensures
        views(r@) == without_repeats(in_order(readable(listed@))),
{
    let mut names: Vec<String> = Vec::new();
    let n: usize = listed.len();
    let mut i: usize = 0;
    proof {
        assert(views(names@) =~= readable(listed@.take(0)));
    }
    while i < n
        invariant
            i <= n,
            n == listed@.len(),
            views(names@) == readable(listed@.take(i as int)),
        decreases n - i,
    {
        let ghost had = views(names@);
        proof {
            let k = i as int;
            assert(listed@.take(k + 1).drop_last() =~= listed@.take(k));
            assert(listed@.take(k + 1).last() == listed@[k]);
        }
        if let Some(name) = &listed[i] {
            names.push(name.clone());
            proof {
                assert(views(names@) =~= had.push(name@));
            }
        }
        i = i + 1;
    }
    proof {
        assert(listed@.take(n as int) =~= listed@);
    }
    tidied(names)
}

/// Whether the device at a place bears a name.
pub open spec fn bears(listed: Seq<Option<String>>, i: int, name: Seq<char>) -> bool {
    listed[i] matches Some(n) && n@ == name
}

/// What a default device without a readable name is called.
pub const UNKNOWN_INPUT: &'static str = "<unknown input device>";

/// Why nothing can be recorded.
pub const NO_INPUT: &'static str = "No input device found";

/// Resolve a saved device name, falling back to the system default if it is no longer there.
/// `listed` is `None` where the devices could not be listed, and `default` where there is no
/// default device.
pub fn select_input_device(
    preferred: Option<&str>,
    listed: Option<&Vec<Option<String>>>,
    default: Option<Option<String>>,
) -> (r: Result<InputDeviceSelection, &'static str>)
    ensures
        ({
            let wanted = preferred matches Some(p) && trim(p@).len() > 0;
            let there = wanted && listed is Some && exists|i: int|
                0 <= i < listed->0@.len() && #[trigger] bears(listed->0@, i, preferred->0@);
            match r {
                Ok(s) => if there {
                    &&& s.device matches Some(d) && d < listed->0@.len() && bears(
                        listed->0@,
                        d as int,
                        preferred->0@,
                    ) && forall|j: int|
                        0 <= j < d ==> !#[trigger] bears(listed->0@, j, preferred->0@)
                    &&& s.name@ == preferred->0@
                    &&& !s.used_fallback
                } else {
                    &&& default is Some
                    &&& s.device is None
                    &&& s.name@ == (match default->0 {
                        Some(n) => n@,
                        None => UNKNOWN_INPUT@,
                    })
                    &&& s.used_fallback == (preferred is Some)
                },
                Err(m) => !there && default is None && m@ == NO_INPUT@,
            }
        }),
        r matches Err(m) ==> m@ == "No input device found"@,
        r matches Ok(s) ==> (s.device is None && default == Some(None::<String>) ==> s.name@
            == "<unknown input device>"@),
{
    if let Some(p) = preferred {
        if !is_blank(p) {
            if let Some(list) = listed {
                let n: usize = list.len();
                let mut i: usize = 0;
                while i < n
                    invariant
                        i <= n,
                        n == list@.len(),
                        listed == Some(list),
                        preferred == Some(p),
                        trim(p@).len() > 0,
                        forall|j: int| 0 <= j < i ==> !#[trigger] bears(list@, j, p@),
                    decreases n - i,
                {
                    let found = match &list[i] {
                        Some(name) => same_text(name.as_str(), p),
                        None => false,
                    };
                    if found {
                        proof {
                            assert(bears(list@, i as int, p@));
                        }
                        return Ok(
                            InputDeviceSelection {
                                device: Some(i),
                                name: p.to_owned(),
                                used_fallback: false,
                            },
                        );
                    }
                    i = i + 1;
                }
            }
        }
    }
    match default {
        Some(name) => Ok(
            InputDeviceSelection {
                device: None,
                name: match name {
                    Some(n) => n,
                    None => UNKNOWN_INPUT.to_owned(),
                },
                used_fallback: preferred.is_some(),
            },
        ),
        None => Err(NO_INPUT),
    }
}

/// How a device's default recording format is shown.
pub struct InputFormat {
    pub rate: u32,
    pub channels: u16,
    pub sample_format: String,
}

/// A line of the device list: place, name, and the format where it is known.
pub open spec fn device_line(i: nat, name: Option<String>, format: Option<InputFormat>) -> Seq<
    char,
> {
    "["@ + decimal(i) + "] "@ + (match name {
        Some(n) => n@,
        None => "<unknown>"@,
    }) + (match format {
        Some(f) => " ("@ + decimal(f.rate as nat) + "Hz, "@ + decimal(f.channels as nat) + "ch, "@
            + f.sample_format@ + ")"@,
        None => seq![],
    })
}

/// Describes a device for the device list.
pub fn describe_device(i: usize, name: &Option<String>, format: &Option<InputFormat>) -> (r: String)
    ensures
        r@ == device_line(i as nat, *name, *format),
{
    let mut line = "[".to_owned();
    line.append(decimal_of(i as u64).as_str());
    line.append("] ");
    match name {
        Some(n) => {
            line.append(n.as_str());
        },
        None => {
            line.append("<unknown>");
        },
    }
    match format {
        Some(f) => {
            let mut tail = " (".to_owned();
            tail.append(decimal_of(f.rate as u64).as_str());
            tail.append("Hz, ");
            tail.append(decimal_of(f.channels as u64).as_str());
            tail.append("ch, ");
            tail.append(f.sample_format.as_str());
            tail.append(")");
            line.append(tail.as_str());
        },
        None => {
            proof {
                assert(line@ + Seq::<char>::empty() =~= line@);
            }
        },
    }
    line
}

/// Names are read one by one and in order: of two lists in a row those of the one and then those of
/// the other; a device without a readable name has none.
pub proof fn names_are_read_one_by_one(a: Seq<Option<String>>, b: Seq<Option<String>>, name: String)
    ensures
        readable(a + b) == readable(a) + readable(b),
        readable(seq![Some(name)]) == seq![name@],
        readable(seq![None]) == Seq::<Seq<char>>::empty(),
        readable(Seq::empty()) == Seq::<Seq<char>>::empty(),
    decreases b.len(),
{
    reveal_with_fuel(readable, 2);
    assert(seq![Some(name)].drop_last() =~= Seq::<Option<String>>::empty());
    assert(seq![None::<String>].drop_last() =~= Seq::<Option<String>>::empty());
    assert(readable(seq![Some(name)]) =~= seq![name@]);
    if b.len() == 0 {
        assert(a + b =~= a);
        assert(readable(a) + readable(b) =~= readable(a));
    } else {
        names_are_read_one_by_one(a, b.drop_last(), name);
        assert((a + b).drop_last() =~= a + b.drop_last());
        assert((a + b).last() == b.last());
        assert(readable(a + b) =~= readable(a) + readable(b));
    }
}

/// A device bears the name that was read of it, and one whose name could not be read bears none.
pub proof fn devices_bear_the_names_read_of_them(
    listed: Seq<Option<String>>,
    i: int,
    name: Seq<char>,
)
    requires
        0 <= i < listed.len(),
    ensures
        listed[i] is None ==> !bears(listed, i, name),
        listed[i] matches Some(n) ==> (bears(listed, i, name) <==> n@ == name),
{
}

/// A line of the device list gives the device's place and name, and where the format is known its
/// rate, its channels and its samples.
pub proof fn lines_describe_their_device(i: nat, name: Option<String>, format: Option<InputFormat>)
    ensures
        ({
            let called = match name {
                Some(n) => n@,
                None => "<unknown>"@,
            };
            exists|place: Seq<char>, tail: Seq<char>|
                #![trigger number_in(place), place + tail]
                number_in(place) == i && device_line(i, name, format) == "["@ + place + "] "@
                    + called + tail && (format is None ==> tail.len() == 0) && (
                format matches Some(f) ==> exists|rate: Seq<char>, channels: Seq<char>|
                    #![trigger number_in(rate), number_in(channels)]
                    number_in(rate) == f.rate && number_in(channels) == f.channels && tail == " ("@
                        + rate + "Hz, "@ + channels + "ch, "@ + f.sample_format@ + ")"@)
        }),
{
    decimals_read_back(i);
    let place = decimal(i);
    assert(number_in(place) == i);
    match format {
        Some(f) => {
            decimals_read_back(f.rate as nat);
            decimals_read_back(f.channels as nat);
            let rate = decimal(f.rate as nat);
            let channels = decimal(f.channels as nat);
            assert(number_in(rate) == f.rate && number_in(channels) == f.channels);
            let tail = " ("@ + rate + "Hz, "@ + channels + "ch, "@ + f.sample_format@ + ")"@;
            let whole = place + tail;
        },
        None => {
            let tail = Seq::<char>::empty();
            let whole = place + tail;
        },
    }
}

}
