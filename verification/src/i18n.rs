//! The interface language: English or Spanish.
use vstd::prelude::*;

use crate::text::{ascii_lower, chars_of, has_prefix, starts_with, to_ascii_lower};

verus! {

/// The language used for a locale tag: Spanish for tags that start with
/// `es` in any ASCII case, English otherwise.
pub open spec fn language_of(locale: Seq<char>) -> Seq<char> {
    if has_prefix(ascii_lower(locale), "es"@) {
        "es"@
    } else {
        "en"@
    }
}

/// The language used for the locale tag `locale`.
pub fn normalize_locale(locale: &str) -> (r: &'static str)
    ensures
        r@ == language_of(locale@),
{
    let lower = to_ascii_lower(&chars_of(locale));
    if starts_with(&lower, &chars_of("es")) {
        "es"
    } else {
        "en"
    }
}

/// The language for the system's locale as found: its language when one
/// was found, English otherwise.
pub fn locale_from(found: Option<&str>) -> (r: &'static str)
    ensures
        match found {
            Some(l) => r@ == language_of(l@),
            None => r@ == "en"@,
        },
{
    match found {
        Some(l) => normalize_locale(l),
        None => "en",
    }
}

/// Calls `sys_locale::get_locale`, which reads the operating system's
/// preferred locale. What it returns depends on the machine, so nothing is
/// stated of it.
#[verifier::external_body]
fn os_locale() -> Option<String> {
    sys_locale::get_locale()
}

/// The language for the system's preferred locale; English when none can be
/// found. Which one it is depends on the machine.
pub fn system_locale() -> (r: &'static str)
    ensures
        r@ == "es"@ || r@ == "en"@,
{
    let found = os_locale();
    match &found {
        Some(l) => locale_from(Some(l.as_str())),
        None => locale_from(None),
    }
}

/// Calls `rust_i18n::set_locale`, which makes `locale` the language that
/// the interface's messages are looked up in from then on. That is a change of global state, and
/// nothing is stated of it; it is only ever handed one of the two languages.
#[verifier::external_body]
fn install_locale(locale: &str)
    requires
        locale@ == "es"@ || locale@ == "en"@,
{
    rust_i18n::set_locale(locale);
}

/// Switches the interface to the language for the locale tag `locale`.
pub fn set_locale(locale: &str) {
    let language = normalize_locale(locale);
    install_locale(language);
}

} // verus!
