use vstd::prelude::*;

verus! {

/// The character of a decimal digit.
pub open spec fn digit_char(d: int) -> char
    recommends
        0 <= d < 10,
{
    if d == 0 {
        '0'
    } else if d == 1 {
        '1'
    } else if d == 2 {
        '2'
    } else if d == 3 {
        '3'
    } else if d == 4 {
        '4'
    } else if d == 5 {
        '5'
    } else if d == 6 {
        '6'
    } else if d == 7 {
        '7'
    } else if d == 8 {
        '8'
    } else {
        '9'
    }
}

/// The decimal digits of a number, most significant first, with no leading
/// zero except on zero itself.
pub open spec fn dec_str(n: int) -> Seq<char>
    recommends
        n >= 0,
    decreases n,
{
    if n < 10 {
        seq![digit_char(n)]
    } else {
        dec_str(n / 10) + seq![digit_char(n % 10)]
    }
}

/// Appends one decimal digit to a string.
fn push_digit(s: &mut String, d: u32)
    requires
        d < 10,
    ensures
        final(s)@ == old(s)@ + seq![digit_char(d as int)],
{
    if d == 0 {
        proof {
            reveal_strlit("0");
        }
        s.append("0");
        assert(final(s)@ =~= old(s)@ + seq![digit_char(d as int)]);
    } else if d == 1 {
        proof {
            reveal_strlit("1");
        }
        s.append("1");
        assert(final(s)@ =~= old(s)@ + seq![digit_char(d as int)]);
    } else if d == 2 {
        proof {
            reveal_strlit("2");
        }
        s.append("2");
        assert(final(s)@ =~= old(s)@ + seq![digit_char(d as int)]);
    } else if d == 3 {
        proof {
            reveal_strlit("3");
        }
        s.append("3");
        assert(final(s)@ =~= old(s)@ + seq![digit_char(d as int)]);
    } else if d == 4 {
        proof {
            reveal_strlit("4");
        }
        s.append("4");
        assert(final(s)@ =~= old(s)@ + seq![digit_char(d as int)]);
    } else if d == 5 {
        proof {
            reveal_strlit("5");
        }
        s.append("5");
        assert(final(s)@ =~= old(s)@ + seq![digit_char(d as int)]);
    } else if d == 6 {
        proof {
            reveal_strlit("6");
        }
        s.append("6");
        assert(final(s)@ =~= old(s)@ + seq![digit_char(d as int)]);
    } else if d == 7 {
        proof {
            reveal_strlit("7");
        }
        s.append("7");
        assert(final(s)@ =~= old(s)@ + seq![digit_char(d as int)]);
    } else if d == 8 {
        proof {
            reveal_strlit("8");
        }
        s.append("8");
        assert(final(s)@ =~= old(s)@ + seq![digit_char(d as int)]);
    } else {
        proof {
            reveal_strlit("9");
        }
        s.append("9");
        assert(final(s)@ =~= old(s)@ + seq![digit_char(d as int)]);
    }
}

fn push_dec(s: &mut String, n: u32)
    ensures
        final(s)@ == old(s)@ + dec_str(n as int),
    decreases n,
{
    if n < 10 {
        push_digit(s, n);
    } else {
        push_dec(s, n / 10);
        push_digit(s, n % 10);
        assert(final(s)@ =~= old(s)@ + dec_str(n as int));
    }
}

/// The decimal text of a number.
pub fn u32_to_dec_string(n: u32) -> (s: String)
    ensures
        s@ == dec_str(n as int),
{
    let mut s = String::new();
    push_dec(&mut s, n);
    assert(s@ =~= dec_str(n as int));
    s
}

/// The stable identifier a device instance is published under.
pub open spec fn unique_id_seq(instance: u32) -> Seq<char> {
    "bacnet_"@ + dec_str(instance as int)
}

/// The topic a device's state is published to.
pub open spec fn state_topic_seq(prefix: Seq<char>, instance: u32) -> Seq<char> {
    prefix + "/sensor/"@ + unique_id_seq(instance) + "/state"@
}

/// The topic a device's discovery configuration is published to.
pub open spec fn config_topic_seq(prefix: Seq<char>, instance: u32) -> Seq<char> {
    prefix + "/sensor/"@ + unique_id_seq(instance) + "/config"@
}

/// The display name derived from a device instance.
pub open spec fn device_name_seq(instance: u32) -> Seq<char> {
    "BACnet Device "@ + dec_str(instance as int)
}

/// The manufacturer text derived from a vendor number.
pub open spec fn manufacturer_seq(vendor: u16) -> Seq<char> {
    "Vendor ID "@ + dec_str(vendor as int)
}

/// Builds the stable identifier of a device instance.
pub fn unique_id_string(instance: u32) -> (s: String)
    ensures
        s@ == unique_id_seq(instance),
{
    let mut s = String::new();
    s.append("bacnet_");
    push_dec(&mut s, instance);
    assert(s@ =~= unique_id_seq(instance));
    s
}

/// Builds the state topic of a device instance under a discovery prefix.
pub fn state_topic_string(prefix: &str, instance: u32) -> (s: String)
    ensures
        s@ == state_topic_seq(prefix@, instance),
{
    let mut s = prefix.to_owned();
    s.append("/sensor/");
    s.append("bacnet_");
    push_dec(&mut s, instance);
    s.append("/state");
    assert(s@ =~= state_topic_seq(prefix@, instance));
    s
}

/// Builds the configuration topic of a device instance under a discovery
/// prefix.
pub fn config_topic_string(prefix: &str, instance: u32) -> (s: String)
    ensures
        s@ == config_topic_seq(prefix@, instance),
{
    let mut s = prefix.to_owned();
    s.append("/sensor/");
    s.append("bacnet_");
    push_dec(&mut s, instance);
    s.append("/config");
    assert(s@ =~= config_topic_seq(prefix@, instance));
    s
}

/// Builds the display name of a device instance.
pub fn device_name_string(instance: u32) -> (s: String)
    ensures
        s@ == device_name_seq(instance),
{
    let mut s = String::new();
    s.append("BACnet Device ");
    push_dec(&mut s, instance);
    assert(s@ =~= device_name_seq(instance));
    s
}

/// Builds the manufacturer text of a vendor number.
pub fn manufacturer_string(vendor: u16) -> (s: String)
    ensures
        s@ == manufacturer_seq(vendor),
{
    let mut s = String::new();
    s.append("Vendor ID ");
    push_dec(&mut s, vendor as u32);
    assert(s@ =~= manufacturer_seq(vendor));
    s
}

} // verus!
