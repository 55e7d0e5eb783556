use vstd::prelude::*;

verus! {

/// The identifying numbers of a HID device.
#[derive(Clone, Copy, Debug, PartialEq, Eq, Structural)]
pub struct Device {
    pub vendor_id: u16,
    pub product_id: u16,
    pub usage_page: u16,
    pub usage: u16,
}

/// Which devices to look for; an absent number matches any device.
#[derive(Clone, Copy, Debug, PartialEq, Eq, Structural)]
pub struct Opts {
    pub vendor_id: Option<u16>,
    pub product_id: Option<u16>,
    pub usage_page: Option<u16>,
    pub usage: Option<u16>,
}

pub open spec fn field_matches(want: Option<u16>, have: u16) -> bool {
    match want {
        Some(w) => w == have,
        None => true,
    }
}

pub open spec fn device_matches(opts: Opts, d: Device) -> bool {
    field_matches(opts.vendor_id, d.vendor_id) && field_matches(opts.product_id, d.product_id)
        && field_matches(opts.usage_page, d.usage_page) && field_matches(opts.usage, d.usage)
}

/// The devices of `available` that `opts` selects, in their order.
pub open spec fn matching(opts: Opts, available: Seq<Device>) -> Seq<Device> {
    available.filter(|d: Device| device_matches(opts, d))
}

fn matches_opt(want: Option<u16>, have: u16) -> (r: bool)
    ensures
        r == field_matches(want, have),
{
    match want {
        Some(w) => w == have,
        None => true,
    }
}

/// Picks out of the enumerated devices those that `opts` selects.
pub fn get_matching_devices(opts: Opts, available: &Vec<Device>) -> (r: Vec<Device>)
    ensures
        r@ == matching(opts, available@),
{
    let mut out: Vec<Device> = Vec::new();
    let mut i: usize = 0;
    while i < available.len()
        invariant
            i <= available@.len(),
            out@ == matching(opts, available@.take(i as int)),
        decreases available@.len() - i,
    {
        let d = available[i];
        proof {
            reveal_with_fuel(Seq::filter, 1);
            assert(available@.take(i + 1 as int).drop_last() =~= available@.take(i as int));
        }
        if matches_opt(opts.vendor_id, d.vendor_id) && matches_opt(opts.product_id, d.product_id)
            && matches_opt(opts.usage_page, d.usage_page) && matches_opt(opts.usage, d.usage) {
            out.push(d);
        }
        i += 1;
    }
    assert(available@.take(i as int) =~= available@);
    out
}

} // verus!
