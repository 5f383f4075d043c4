use vstd::prelude::*;

use crate::state::StateView;
use crate::website::{
    ConfigError, WebSite, WebSiteInfo, has_name, interval_ok, is_first_repeat, names_unique,
    rejected_with,
};

verus! {

/// In a valid catalog exactly one entry carries the default name, so the
/// default entry's position is well defined.
pub proof fn lemma_default_position_unique(info: WebSiteInfo, i: int, j: int)
    requires
        info.is_valid(),
        0 <= i < info.websites@.len(),
        0 <= j < info.websites@.len(),
        info.websites@[i].name@ == info.default@,
        info.websites@[j].name@ == info.default@,
    ensures
        i == j,
{
    if i < j {
        assert(info.websites@[i].name@ != info.websites@[j].name@);
    } else if j < i {
        assert(info.websites@[j].name@ != info.websites@[i].name@);
    }
}

/// A catalog with a repeated name is refused with `DuplicateName`, one whose
/// names are distinct but whose default names no entry with `DefaultNotFound`.
pub proof fn lemma_rejection_matches_fault(info: WebSiteInfo, e: ConfigError)
    requires
        rejected_with(info, e),
        interval_ok(info.slider),
    ensures
        !info.is_valid(),
        !names_unique(info.websites@) <==> e is DuplicateName,
        names_unique(info.websites@) && !has_name(info.websites@, info.default@)
            <==> e is DefaultNotFound,
{
    let sites: Seq<WebSite> = info.websites@;
    if let ConfigError::DuplicateName(n) = e {
        let j = choose|j: int| is_first_repeat(sites, j) && n@ == #[trigger] sites[j].name@;
        let i = choose|i: int| 0 <= i < j && #[trigger] sites[i].name@ == sites[j].name@;
        assert(sites[i].name@ == sites[j].name@);
    }
}

/// Toggling twice in a row restores both the visibility and the active entry.
pub proof fn lemma_toggle_twice(s: StateView)
    ensures
        s.toggled().toggled() == s,
{
}

/// Whatever the state before, a selection of `id` leaves `id` active and shown.
pub proof fn lemma_select_shows(s: StateView, id: nat)
    requires
        s.is_valid(),
        id < s.count,
    ensures
        s.selected(id).active == id,
        s.selected(id).visible,
        s.selected(id).is_valid(),
{
}

/// A rotation tick while nothing is shown changes nothing.
pub proof fn lemma_hidden_tick_is_noop(s: StateView)
    requires
        !s.visible,
    ensures
        s.ticked() == s,
{
}

/// With at least two entries, shown, and no other operation in between, tick
/// `k` makes entry `(start + k) mod n` active; after `n` ticks the rotation
/// is back where it began.
pub proof fn lemma_rotation_cycle(s: StateView, k: nat)
    requires
        s.is_valid(),
        s.count >= 2,
        s.visible,
        1 <= k <= s.count,
    ensures
        s.ticked_n(k).active == (s.active + k) as int % (s.count as int),
        s.ticked_n(k).visible,
        s.ticked_n(s.count) == s,
{
    lemma_ticks_advance(s, k);
    lemma_ticks_advance(s, s.count);
    vstd::arithmetic::div_mod::lemma_mod_add_multiples_vanish(s.active as int, s.count as int);
    vstd::arithmetic::div_mod::lemma_small_mod(s.active, s.count);
}

proof fn lemma_ticks_advance(s: StateView, k: nat)
    requires
        s.is_valid(),
        s.count >= 2,
        s.visible,
    ensures
        s.ticked_n(k).active == (s.active + k) as int % (s.count as int),
        s.ticked_n(k).visible,
        s.ticked_n(k).count == s.count,
    decreases k,
{
    let n = s.count as int;
    if k == 0 {
        vstd::arithmetic::div_mod::lemma_small_mod(s.active, s.count);
    } else {
        lemma_ticks_advance(s, (k - 1) as nat);
        vstd::arithmetic::div_mod::lemma_add_mod_noop(s.active + k - 1, 1, n);
        vstd::arithmetic::div_mod::lemma_small_mod(1, s.count);
    }
}

} // verus!
