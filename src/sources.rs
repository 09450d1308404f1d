//! The two outside collaborators: the argument matches produced by `clap`
//! and the section/key store of `rust-ini`. Only lookups and updates are
//! used; parsing argv and reading or writing files happen outside the library.
use vstd::prelude::*;

verus! {

/// The section/key store of `rust-ini`, carried opaquely and read through
/// `ini_values`.
#[verifier::external_type_specification]
#[verifier::external_body]
pub struct ExIni(ini::Ini);

/// The error of `rust-ini` for a file that is not in its format, carried in
/// the library's error.
#[verifier::external_type_specification]
#[verifier::external_body]
pub struct ExIniParseError(ini::ini::ParseError);

/// An I/O error, carried in the library's error.
#[verifier::external_type_specification]
#[verifier::external_body]
pub struct ExIoError(std::io::Error);

/// The argument matches of `clap`, carried opaquely and read through
/// `cli_matches`.
#[verifier::external_type_specification]
#[verifier::external_body]
pub struct ExArgMatches<'a>(clap::ArgMatches<'a>);

/// What an `Ini` holds: for each (section, key), the value that `get_from`
/// reports for it.
pub uninterp spec fn ini_values(i: ini::Ini) -> Map<(Seq<char>, Seq<char>), Seq<char>>;

/// What a set of argument matches holds: each name that `is_present` reports,
/// with the first value given for it, if any.
pub uninterp spec fn cli_matches(m: clap::ArgMatches<'_>) -> Map<Seq<char>, Option<Seq<char>>>;

/// Relies on `Ini::new`: a fresh store holds nothing.
#[verifier::external_body]
pub(crate) fn ini_new() -> (r: ini::Ini)
    ensures
        ini_values(r) == crate::config::empty_store(),
{
    ini::Ini::new()
}

/// Relies on `Ini::set_to` (`SectionSetter::set`): the first section with
/// that name, made if missing, gets the key with this one value (earlier
/// values of the key are dropped); every other section and key reads as
/// before.
#[verifier::external_body]
pub(crate) fn ini_set(i: &mut ini::Ini, section: &str, key: &str, value: &str)
    ensures
        ini_values(*final(i)) == ini_values(*old(i)).insert((section@, key@), value@),
{
    i.set_to(Some(section), key.to_string(), value.to_string())
}

/// Relies on `Ini::get_from`: the first value of the key in the first section
/// with that name, or `None`.
#[verifier::external_body]
pub(crate) fn ini_get(i: &ini::Ini, section: &str, key: &str) -> (r: Option<String>)
    ensures
        r matches Some(v) ==> ini_values(*i).contains_key((section@, key@)) && ini_values(*i)[(section@, key@)] == v@,
        r is None ==> !ini_values(*i).contains_key((section@, key@)),
{
    i.get_from(Some(section), key).map(|v| v.to_string())
}

/// Relies on `ArgMatches::is_present`: whether the name was given.
#[verifier::external_body]
pub(crate) fn arg_present(m: &clap::ArgMatches, name: &str) -> (r: bool)
    ensures
        r == cli_matches(*m).contains_key(name@),
{
    m.is_present(name)
}

/// Relies on `ArgMatches::value_of_lossy`: the first value given for the
/// name, as text (bytes that are not UTF-8 are replaced), or `None` when the
/// name was not given with a value. Unlike `value_of`, it never panics.
#[verifier::external_body]
pub(crate) fn arg_text(m: &clap::ArgMatches, name: &str) -> (r: Option<String>)
    ensures
        r matches Some(v) ==> cli_matches(*m).contains_key(name@) && cli_matches(*m)[name@] == Some(v@),
        r is None ==> !cli_matches(*m).contains_key(name@) || cli_matches(*m)[name@] is None,
{
    m.value_of_lossy(name).map(|v| v.into_owned())
}

} // verus!
