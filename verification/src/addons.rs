//! The language packs, which stay opt-in: each is enabled by a flag file next to the program.

use crate::text::texts;
use vstd::prelude::*;
use vstd::string::StringExecFns;

verus! {

/// The number of language packs.
pub const ADDON_COUNT: usize = 5;

/// The languages that there are packs for.
pub open spec fn languages() -> Seq<Seq<char>> {
    seq!["fr"@, "de"@, "es"@, "pt"@, "ko"@]
}

/// The language of the pack of this number, if there is one.
pub fn addon_language(i: usize) -> (r: Option<&'static str>)
    ensures
        match r {
            Some(language) => i < ADDON_COUNT && language@ == languages()[i as int],
            None => i >= ADDON_COUNT,
        },
{
    if i == 0 {
        Some("fr")
    } else if i == 1 {
        Some("de")
    } else if i == 2 {
        Some("es")
    } else if i == 3 {
        Some("pt")
    } else if i == 4 {
        Some("ko")
    } else {
        None
    }
}

/// The name of the flag file that enables the pack of a language.
pub fn addon_flag_name(language: &str) -> (r: String)
    ensures
        r@ == "addon_"@ + language@ + ".flag"@,
{
    let mut name = String::from_str("addon_");
    name.append(language);
    name.append(".flag");
    name
}

/// Those of the first `n` languages whose flag file is there, in order.
pub open spec fn installed(flags: Seq<bool>, n: nat) -> Seq<Seq<char>>
    decreases n,
{
    if n == 0 {
        Seq::empty()
    } else {
        let before = installed(flags, (n - 1) as nat);
        if n - 1 < flags.len() && flags[n - 1] {
            before.push(languages()[n - 1])
        } else {
            before
        }
    }
}

/// The enabled packs are those whose flag file is there, in the order of the packs: French, German,
/// Spanish, Portuguese, Korean.
pub proof fn law_flags_enable_their_packs(flags: Seq<bool>)
    requires
        flags.len() == 5,
    ensures
        installed(flags, ADDON_COUNT as nat) == (if flags[0] {
            seq!["fr"@]
        } else {
            Seq::empty()
        }) + (if flags[1] {
            seq!["de"@]
        } else {
            Seq::empty()
        }) + (if flags[2] {
            seq!["es"@]
        } else {
            Seq::empty()
        }) + (if flags[3] {
            seq!["pt"@]
        } else {
            Seq::empty()
        }) + (if flags[4] {
            seq!["ko"@]
        } else {
            Seq::empty()
        }),
{
    reveal_with_fuel(installed, 6);
}

/// The flag of this number is known and its file is there.
pub open spec fn is_set(flags: Seq<bool>, i: int) -> bool {
    i < flags.len() && flags[i]
}

/// Whether a pack is enabled depends on its own flag alone, one that is not known counting as a
/// missing file.
pub proof fn law_packs_depend_on_their_flags(flags: Seq<bool>, other: Seq<bool>, n: nat)
    requires
        forall|i: int| 0 <= i < n ==> #[trigger] is_set(flags, i) == is_set(other, i),
    ensures
        installed(flags, n) == installed(other, n),
    decreases n,
{
    if n > 0 {
        law_packs_depend_on_their_flags(flags, other, (n - 1) as nat);
        assert(is_set(flags, n - 1) == is_set(other, n - 1));
    }
}

/// The languages whose packs are enabled. `flags` tells for each pack whether its flag file is
/// there; a pack that it does not reach is not enabled.
pub fn get_installed_addons(flags: &Vec<bool>) -> (r: Vec<String>)
    ensures
        texts(r@) == installed(flags@, ADDON_COUNT as nat),
{
    let mut r: Vec<String> = Vec::new();
    let mut i: usize = 0;
    assert(texts(r@) =~= Seq::empty());
    while i < ADDON_COUNT
        invariant
            i <= ADDON_COUNT,
            texts(r@) == installed(flags@, i as nat),
        decreases ADDON_COUNT - i,
    {
        if i < flags.len() && flags[i] {
            if let Some(language) = addon_language(i) {
                let ghost before = r@;
                r.push(String::from_str(language));
                assert(texts(r@) =~= texts(before).push(language@));
            }
        }
        i = i + 1;
    }
    r
}

} // verus!
