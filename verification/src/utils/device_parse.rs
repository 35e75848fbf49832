//! The instance of a device, read from the path of one of its HID
//! interfaces.
//!
//! On Windows the path of an interface has the form
//! `\\?\HID#VID_xxxx&PID_xxxx&MI_xx#<instance>&<interface>#{GUID}`. The
//! parts between the `#` signs name the hardware and the instance; what
//! stands in front of the last `&` of the instance part is shared by all
//! interfaces of one device. Elsewhere the path itself is the instance.

use vstd::prelude::*;

verus! {

/// Index of the first `c` in `s` at or behind `from`; the length of `s`
/// when there is none.
pub open spec fn index_of_from(s: Seq<char>, c: char, from: int) -> int
    decreases s.len() - from,
{
    if from >= s.len() {
        s.len() as int
    } else if s[from] == c {
        from
    } else {
        index_of_from(s, c, from + 1)
    }
}

/// Index of the last `c` in `s`, if there is one.
pub open spec fn last_index_of(s: Seq<char>, c: char) -> Option<int>
    decreases s.len(),
{
    if s.len() == 0 {
        None
    } else if s.last() == c {
        Some(s.len() - 1)
    } else {
        last_index_of(s.drop_last(), c)
    }
}

/// The second and the third of the parts into which `#` signs cut `path`,
/// if there are three parts or more.
pub open spec fn hardware_and_instance(path: Seq<char>) -> Option<(Seq<char>, Seq<char>)> {
    let first = index_of_from(path, '#', 0);
    let second = index_of_from(path, '#', first + 1);
    let third = index_of_from(path, '#', second + 1);
    if first >= path.len() || second >= path.len() {
        None
    } else {
        Some((path.subrange(first + 1, second), path.subrange(second + 1, third)))
    }
}

/// The device path and the instance that a Windows interface path names:
/// `HID\<hardware>\<instance part>`, and the instance part up to its last
/// `&`. Nothing for a path with fewer than three parts or without `&` in
/// its instance part.
pub open spec fn hid_path_of(path: Seq<char>) -> Option<(Seq<char>, Seq<char>)> {
    match hardware_and_instance(path) {
        None => None,
        Some((hardware, instance)) => match last_index_of(instance, '&') {
            None => None,
            Some(cut) => Some(
                ("HID\\"@ + hardware + "\\"@ + instance, instance.subrange(0, cut)),
            ),
        },
    }
}

/// Index of the first `c` in `text` at or behind `from`, of `len`
/// characters.
fn find_from(text: &str, c: char, from: usize, len: usize) -> (at: usize)
    requires
        from <= len,
        len == text@.len(),
    ensures
        at == index_of_from(text@, c, from as int),
        from <= at <= len,
{
    let mut i: usize = from;
    while i < len
        invariant
            from <= i <= len,
            len == text@.len(),
            index_of_from(text@, c, from as int) == index_of_from(text@, c, i as int),
        decreases len - i,
    {
        if text.get_char(i) == c {
            return i;
        }
        i += 1;
    }
    i
}

/// Index of the last `c` in `text`, of `len` characters.
fn find_last(text: &str, c: char, len: usize) -> (at: Option<usize>)
    requires
        len == text@.len(),
    ensures
        match at {
            Some(i) => last_index_of(text@, c) == Some(i as int) && i < len,
            None => last_index_of(text@, c) is None,
        },
{
    let mut i: usize = len;
    assert(text@.take(len as int) =~= text@);
    while i > 0
        invariant
            i <= len,
            len == text@.len(),
            last_index_of(text@, c) == last_index_of(text@.take(i as int), c),
        decreases i,
    {
        assert(text@.take(i as int).drop_last() =~= text@.take(i - 1));
        if text.get_char(i - 1) == c {
            return Some(i - 1);
        }
        i -= 1;
    }
    None
}

/// Reads the device path and the instance from the path of a HID interface
/// on Windows.
pub fn parse_hid_path(path: &str) -> (result: Option<(String, String)>)
    ensures
        match result {
            Some((device, instance)) => hid_path_of(path@) == Some((device@, instance@)),
            None => hid_path_of(path@) is None,
        },
{
    let len = path.unicode_len();
    let first = find_from(path, '#', 0, len);
    if first >= len {
        return None;
    }
    let second = find_from(path, '#', first + 1, len);
    if second >= len {
        return None;
    }
    let third = find_from(path, '#', second + 1, len);
    let hardware = path.substring_char(first + 1, second);
    let instance_part = path.substring_char(second + 1, third);
    match find_last(instance_part, '&', third - second - 1) {
        None => None,
        Some(cut) => {
            let mut device = "HID\\".to_string();
            device.append(hardware);
            device.append("\\");
            device.append(instance_part);
            let instance = instance_part.substring_char(0, cut).to_string();
            Some((device, instance))
        },
    }
}

/// Where the path of an interface is all there is, it names both the
/// device and the instance.
pub fn get_instance(path: &str) -> (result: Option<(String, String)>)
    ensures
        result matches Some((device, instance)) && device@ == path@ && instance@ == path@,
{
    Some((path.to_string(), path.to_string()))
}

} // verus!
