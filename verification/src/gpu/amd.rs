//! AMD GPUs under the DRM class directory: which card is an AMD GPU, its
//! name, and the `amdgpu` monitoring directory that reports its
//! temperature.
use vstd::prelude::*;

use crate::text::{chars_eq, chars_of, starts_with, string_of, trim, trim_chars};
use crate::ui::frame::opt_view;

verus! {

/// An AMD GPU: its product name, its card directory, and its `amdgpu`
/// monitoring directory when it has one.
pub struct AmdGpu {
    pub name: String,
    pub card_path: String,
    pub hwmon_path: Option<String>,
}

/// A monitoring directory of a card's device, with the contents of its
/// `name` file when that could be read.
pub struct HwmonEntry {
    pub path: String,
    pub name: Option<String>,
}

/// An entry of the DRM class directory: its file name and path, the
/// contents of its device's `vendor` and `product_name` files when they
/// could be read, and its device's monitoring directories in order.
pub struct DrmCard {
    pub dir_name: String,
    pub path: String,
    pub vendor: Option<String>,
    pub product_name: Option<String>,
    pub hwmons: Vec<HwmonEntry>,
}

/// A card directory (`card0`, not a connector such as `card0-DP-1`).
pub open spec fn is_card_dir(name: Seq<char>) -> bool {
    starts_with(name, "card"@) && !name.contains('-')
}

/// A card whose vendor is AMD (PCI vendor `0x1002`).
pub open spec fn is_amd_card(c: DrmCard) -> bool {
    &&& is_card_dir(c.dir_name@)
    &&& c.vendor matches Some(v) && trim(v@) == "0x1002"@
}

/// The product name trimmed, or `AMD GPU` when it is missing or blank.
pub open spec fn product_text(p: Option<Seq<char>>) -> Seq<char> {
    match p {
        Some(n) => if trim(n).len() > 0 {
            trim(n)
        } else {
            "AMD GPU"@
        },
        None => "AMD GPU"@,
    }
}

/// The first monitoring directory named `amdgpu`.
pub open spec fn amd_hwmon(hs: Seq<HwmonEntry>) -> Option<Seq<char>>
    decreases hs.len(),
{
    if hs.len() == 0 {
        None
    } else if hs[0].name matches Some(n) && trim(n@) == "amdgpu"@ {
        Some(hs[0].path@)
    } else {
        amd_hwmon(hs.drop_first())
    }
}

/// The first AMD card: name, card path and monitoring directory.
pub open spec fn amd_gpu(cards: Seq<DrmCard>) -> Option<(Seq<char>, Seq<char>, Option<Seq<char>>)>
    decreases cards.len(),
{
    if cards.len() == 0 {
        None
    } else if is_amd_card(cards[0]) {
        Some(
            (
                product_text(opt_view(cards[0].product_name)),
                cards[0].path@,
                amd_hwmon(cards[0].hwmons@),
            ),
        )
    } else {
        amd_gpu(cards.drop_first())
    }
}

pub open spec fn amd_view(g: Option<AmdGpu>) -> Option<(Seq<char>, Seq<char>, Option<Seq<char>>)> {
    match g {
        Some(a) => Some((a.name@, a.card_path@, opt_view(a.hwmon_path))),
        None => None,
    }
}

fn has_dash(s: &Vec<char>) -> (r: bool)
    ensures
        r == s@.contains('-'),
{
    let mut i: usize = 0;
    while i < s.len()
        invariant
            i <= s.len(),
            forall|k: int| 0 <= k < i ==> s@[k] != '-',
        decreases s.len() - i,
    {
        if s[i] == '-' {
            assert(s@[i as int] == '-');
            return true;
        }
        i += 1;
    }
    false
}

fn is_amd_card_exec(c: &DrmCard) -> (r: bool)
    ensures
        r == is_amd_card(*c),
{
    let name = chars_of(c.dir_name.as_str());
    if !crate::text::chars_start_with(&name, "card") || has_dash(&name) {
        return false;
    }
    match &c.vendor {
        Some(v) => chars_eq(&trim_chars(&chars_of(v.as_str())), "0x1002"),
        None => false,
    }
}

fn product(p: &Option<String>) -> (r: String)
    ensures
        r@ == product_text(opt_view(*p)),
{
    if let Some(n) = p {
        let t = trim_chars(&chars_of(n.as_str()));
        if t.len() > 0 {
            return string_of(&t);
        }
    }
    string_of(&chars_of("AMD GPU"))
}

/// The card's `amdgpu` monitoring directory: the first one whose name
/// file reads `amdgpu`.
pub fn find_hwmon(hwmons: &Vec<HwmonEntry>) -> (r: Option<String>)
    ensures
        opt_view(r) == amd_hwmon(hwmons@),
{
    let mut i: usize = 0;
    assert(hwmons@.skip(0) =~= hwmons@);
    while i < hwmons.len()
        invariant
            i <= hwmons.len(),
            amd_hwmon(hwmons@) == amd_hwmon(hwmons@.skip(i as int)),
        decreases hwmons.len() - i,
    {
        assert(hwmons@.skip(i as int).drop_first() =~= hwmons@.skip(i + 1));
        assert(hwmons@.skip(i as int)[0] == hwmons@[i as int]);
        let h = &hwmons[i];
        if let Some(n) = &h.name {
            if chars_eq(&trim_chars(&chars_of(n.as_str())), "amdgpu") {
                return Some(string_of(&chars_of(h.path.as_str())));
            }
        }
        i += 1;
    }
    assert(hwmons@.skip(i as int) =~= Seq::<HwmonEntry>::empty());
    None
}

/// The first AMD GPU among the DRM entries, in the order listed: a
/// `cardN` entry whose vendor is `0x1002`, named by its product name
/// (`AMD GPU` when there is none), with its `amdgpu` monitoring directory.
pub fn detect(cards: &Vec<DrmCard>) -> (r: Option<AmdGpu>)
    ensures
        amd_view(r) == amd_gpu(cards@),
{
    let mut i: usize = 0;
    assert(cards@.skip(0) =~= cards@);
    while i < cards.len()
        invariant
            i <= cards.len(),
            amd_gpu(cards@) == amd_gpu(cards@.skip(i as int)),
        decreases cards.len() - i,
    {
        assert(cards@.skip(i as int).drop_first() =~= cards@.skip(i + 1));
        assert(cards@.skip(i as int)[0] == cards@[i as int]);
        let c = &cards[i];
        if is_amd_card_exec(c) {
            let name = product(&c.product_name);
            let card_path = string_of(&chars_of(c.path.as_str()));
            let hwmon_path = find_hwmon(&c.hwmons);
            return Some(AmdGpu { name, card_path, hwmon_path });
        }
        i += 1;
    }
    assert(cards@.skip(i as int) =~= Seq::<DrmCard>::empty());
    None
}

} // verus!
