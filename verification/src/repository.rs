//! Identifier derivation and the small checks shared by the contract's methods.
use vstd::prelude::*;

use crate::context::ContractError;
use crate::foreign::{hex_encode, hex_lower, transliterate, unidecode_view};
use crate::text::{chars_of, concat_chars, decimal_chars, decimal_spec, lower_chars, lower_spec, lemma_replace_space_len, lemma_replace_space_removes_spaces, replace_chars, replace_spec, string_of};

verus! {

/// `.testnet`
pub open spec fn testnet_seq() -> Seq<char> {
    seq!['.', 't', 'e', 's', 't', 'n', 'e', 't']
}

/// `.near`
pub open spec fn near_seq() -> Seq<char> {
    seq!['.', 'n', 'e', 'a', 'r']
}

/// `cert `
pub open spec fn cert_seq() -> Seq<char> {
    seq!['c', 'e', 'r', 't', ' ']
}

/// `mentoring `
pub open spec fn mentoring_seq() -> Seq<char> {
    seq!['m', 'e', 'n', 't', 'o', 'r', 'i', 'n', 'g', ' ']
}

/// ` for `
pub open spec fn for_seq() -> Seq<char> {
    seq![' ', 'f', 'o', 'r', ' ']
}

/// `combo `
pub open spec fn combo_seq() -> Seq<char> {
    seq!['c', 'o', 'm', 'b', 'o', ' ']
}

/// The secret appended to a student's hash collection before hashing.
pub open spec fn secret_seq() -> Seq<char> {
    seq![
        'r', 'T', 'R', '3', '/', '4', 'd', '4', 'R', 'C', 'q', 'J', 'd', 'S', '5', '9', 'f', 'f',
        'o', 'M', 'b', '+', 'N', '2', 'u', 'Z', 'Y', 'R', '8', 'n', 'w', 'e',
    ]
}

/// An account id without its `.testnet` and `.near` parts.
pub open spec fn strip_network_spec(a: Seq<char>) -> Seq<char> {
    replace_spec(replace_spec(a, testnet_seq(), Seq::empty()), near_seq(), Seq::empty())
}

/// Every space replaced by an underscore.
pub open spec fn underscore_spec(s: Seq<char>) -> Seq<char> {
    replace_spec(s, seq![' '], seq!['_'])
}

/// The ASCII-lowercased transliteration of a title.
pub open spec fn folded_spec(s: Seq<char>) -> Seq<char> {
    lower_spec(unidecode_view(s))
}

/// Course id: `<folded title> <account>` with spaces as underscores.
pub open spec fn course_id_spec(title: Seq<char>, account: Seq<char>) -> Seq<char> {
    underscore_spec(folded_spec(title) + seq![' '] + strip_network_spec(account))
}

/// Certificate id: `cert <folded course id> <lowercased student>`.
pub open spec fn certificate_id_spec(course_id: Seq<char>, student: Seq<char>) -> Seq<char> {
    underscore_spec(
        cert_seq() + folded_spec(course_id) + seq![' '] + lower_spec(strip_network_spec(student)),
    )
}

/// Mentoring id: `mentoring <folded title> <account>`.
pub open spec fn mentoring_id_spec(title: Seq<char>, account: Seq<char>) -> Seq<char> {
    underscore_spec(mentoring_seq() + folded_spec(title) + seq![' '] + strip_network_spec(account))
}

/// Study process id: `<folded mentoring id> for <student, network parts as spaces><time>`.
pub open spec fn study_process_id_spec(mentoring_id: Seq<char>, student: Seq<char>, time: u64) -> Seq<
    char,
> {
    underscore_spec(
        folded_spec(mentoring_id) + for_seq() + lower_spec(
            replace_spec(replace_spec(student, testnet_seq(), seq![' ']), near_seq(), seq![' ']),
        ) + decimal_spec(time as nat),
    )
}

/// Pool id: the folded title.
pub open spec fn pool_id_spec(title: Seq<char>) -> Seq<char> {
    underscore_spec(folded_spec(title))
}

/// Combo id: `combo <folded title>`.
pub open spec fn combo_id_spec(title: Seq<char>) -> Seq<char> {
    underscore_spec(combo_seq() + folded_spec(title))
}

/// yoctoNEAR in one NEAR.
pub open spec fn yocto_per_near() -> int {
    1_000_000_000_000_000_000_000_000
}

fn testnet_chars() -> (r: Vec<char>)
    ensures
        r@ == testnet_seq(),
{
    let r = chars_of(".testnet");
    proof {
        reveal_strlit(".testnet");
    }
    assert(r@ =~= testnet_seq());
    r
}

fn near_chars() -> (r: Vec<char>)
    ensures
        r@ == near_seq(),
{
    let r = chars_of(".near");
    proof {
        reveal_strlit(".near");
    }
    assert(r@ =~= near_seq());
    r
}

fn space_chars() -> (r: Vec<char>)
    ensures
        r@ == seq![' '],
{
    let mut r: Vec<char> = Vec::new();
    r.push(' ');
    assert(r@ =~= seq![' ']);
    r
}

fn prefix_chars(s: &str) -> (r: Vec<char>)
    ensures
        r@ == s@,
{
    chars_of(s)
}

fn strip_network(a: &Vec<char>) -> (r: Vec<char>)
    ensures
        r@ == strip_network_spec(a@),
{
    let empty: Vec<char> = Vec::new();
    assert(empty@ =~= Seq::<char>::empty());
    let t = replace_chars(a, &testnet_chars(), &empty);
    replace_chars(&t, &near_chars(), &empty)
}

/// An account id without its `.testnet` and `.near` parts.
pub(crate) fn strip_network_str(a: &str) -> (r: String)
    ensures
        r@ == strip_network_spec(a@),
{
    string_of(&strip_network(&chars_of(a)))
}

fn underscore(s: &Vec<char>) -> (r: String)
    ensures
        r@ == underscore_spec(s@),
{
    let mut u: Vec<char> = Vec::new();
    u.push('_');
    assert(u@ =~= seq!['_']);
    let v = replace_chars(s, &space_chars(), &u);
    string_of(&v)
}

fn folded(s: &str) -> (r: Vec<char>)
    ensures
        r@ == folded_spec(s@),
{
    let t = transliterate(s);
    lower_chars(&chars_of(t.as_str()))
}

/// Derives a course id from its title and its creator's account.
pub fn convert_coure_title_to_cousrse_id(title: &str, account_id: String) -> (r: String)
    ensures
        r@ == course_id_spec(title@, account_id@),
{
    let account = strip_network(&chars_of(account_id.as_str()));
    let s = concat_chars(&concat_chars(&folded(title), &space_chars()), &account);
    underscore(&s)
}

/// Derives the id of the certificate a student gets for a course.
pub fn convert_to_certificate_id(course_id: &String, student: &String) -> (r: String)
    ensures
        r@ == certificate_id_spec(course_id@, student@),
{
    let cert = prefix_chars("cert ");
    proof {
        reveal_strlit("cert ");
    }
    assert(cert@ =~= cert_seq());
    let student_convert = lower_chars(&strip_network(&chars_of(student.as_str())));
    let s = concat_chars(
        &concat_chars(&concat_chars(&cert, &folded(course_id.as_str())), &space_chars()),
        &student_convert,
    );
    underscore(&s)
}

/// Derives a mentoring id from its title and its owner's account.
pub fn convert_mentoring_title_to_mentoring_id(title: &str, account_id: String) -> (r: String)
    ensures
        r@ == mentoring_id_spec(title@, account_id@),
{
    let mentoring = prefix_chars("mentoring ");
    proof {
        reveal_strlit("mentoring ");
    }
    assert(mentoring@ =~= mentoring_seq());
    let account = strip_network(&chars_of(account_id.as_str()));
    let s = concat_chars(
        &concat_chars(&concat_chars(&mentoring, &folded(title)), &space_chars()),
        &account,
    );
    underscore(&s)
}

/// Derives the id of a student's study process in a mentoring at block time
/// `time_ms`.
pub fn convert_to_study_process_id(mentoring_id: &String, student: &String, time_ms: u64) -> (r:
    String)
    ensures
        r@ == study_process_id_spec(mentoring_id@, student@, time_ms),
{
    let for_student = prefix_chars(" for ");
    proof {
        reveal_strlit(" for ");
    }
    assert(for_student@ =~= for_seq());
    let st = replace_chars(&chars_of(student.as_str()), &testnet_chars(), &space_chars());
    let st2 = replace_chars(&st, &near_chars(), &space_chars());
    let student_convert = lower_chars(&st2);
    let time = decimal_chars(time_ms);
    let s = concat_chars(
        &concat_chars(&concat_chars(&folded(mentoring_id.as_str()), &for_student), &student_convert),
        &time,
    );
    underscore(&s)
}

/// Converts an amount of NEAR to yoctoNEAR.
pub fn convert_to_yocto(amount: u128) -> (r: u128)
    requires
        amount * yocto_per_near() <= u128::MAX,
    ensures
        r == amount * yocto_per_near(),
{
    amount * 1_000_000_000_000_000_000_000_000u128
}

/// Whether an amount of NEAR can be expressed in yoctoNEAR within `u128`.
pub fn fits_in_yocto(amount: u128) -> (b: bool)
    ensures
        b == (amount * yocto_per_near() <= u128::MAX),
{
    amount <= 340_282_366_920_938u128
}

/// Derives a pool id from its title.
pub fn convert_pool_title_to_pool_id(title: &str) -> (r: String)
    ensures
        r@ == pool_id_spec(title@),
{
    underscore(&folded(title))
}

/// Derives a combo id from its title.
pub fn convert_combo_title_to_combo_id(title: &str) -> (r: String)
    ensures
        r@ == combo_id_spec(title@),
{
    let combo = prefix_chars("combo ");
    proof {
        reveal_strlit("combo ");
    }
    assert(combo@ =~= combo_seq());
    underscore(&concat_chars(&combo, &folded(title)))
}

/// The message whose SHA-256 digest a student's hash is checked against:
/// the hash collection followed by the platform secret.
pub fn encode_message(hash_collection: &String) -> (r: String)
    ensures
        r@ == hash_collection@ + secret_seq(),
{
    let secret = prefix_chars("rTR3/4d4RCqJdS59ffoMb+N2uZYR8nwe");
    proof {
        reveal_strlit("rTR3/4d4RCqJdS59ffoMb+N2uZYR8nwe");
    }
    assert(secret@ =~= secret_seq());
    string_of(&concat_chars(&chars_of(hash_collection.as_str()), &secret))
}

/// Whether the hex encoding of `digest` (the SHA-256 digest of the encode
/// message) is `encode_check`.
pub fn check_encode(digest: &[u8], encode_check: &String) -> (b: bool)
    ensures
        b == (hex_lower(digest@) == encode_check@),
{
    let b = hex_encode(digest);
    b == *encode_check
}

/// Requires a deposit of exactly one yoctoNEAR.
pub fn assert_one_yocto(attached_deposit: u128) -> (r: Result<(), ContractError>)
    ensures
        r is Ok <==> attached_deposit == 1,
        r matches Err(e) ==> e == ContractError::DepositNotOneYocto,
{
    if attached_deposit == 1 {
        Ok(())
    } else {
        Err(ContractError::DepositNotOneYocto)
    }
}

/// Requires a deposit of at least one yoctoNEAR.
pub fn assert_at_least_one_yocto(attached_deposit: u128) -> (r: Result<(), ContractError>)
    ensures
        r is Ok <==> attached_deposit >= 1,
        r matches Err(e) ==> e == ContractError::DepositMissing,
{
    if attached_deposit >= 1 {
        Ok(())
    } else {
        Err(ContractError::DepositMissing)
    }
}

/// Identifiers built by the conversions above hold no space.
pub proof fn lemma_ids_have_no_space(s: Seq<char>)
    ensures
        !underscore_spec(s).contains(' '),
        underscore_spec(s).len() == s.len(),
{
    lemma_replace_space_removes_spaces(s);
    lemma_replace_space_len(s);
}

} // verus!
