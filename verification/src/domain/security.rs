//! Password policies, password strength evaluation, and the security audit log.
use vstd::prelude::*;
use crate::domain::shared::system::{clock_reading, is_v4_uuid, new_uuid, now_millis};
use crate::store::{KeyOf, Keyed, Store};
use crate::text::{
    chars_of, decimal, join3, seq_contains, str_contains, str_eq, to_lowercase, u64_to_string,
    unicode_lowercase,
};

verus! {

/// What `char::is_uppercase` answers for a character.
pub uninterp spec fn unicode_is_uppercase(c: char) -> bool;

/// What `char::is_lowercase` answers for a character.
pub uninterp spec fn unicode_is_lowercase(c: char) -> bool;

/// What `char::is_numeric` answers for a character.
pub uninterp spec fn unicode_is_numeric(c: char) -> bool;

/// What `char::is_alphanumeric` answers for a character.
pub uninterp spec fn unicode_is_alphanumeric(c: char) -> bool;

/// `char::is_uppercase`. Trusted: the answer is a function of the character
/// (its Unicode `Uppercase` property); among ASCII characters exactly `A`..`Z` have it.
#[verifier::external_body]
fn char_is_uppercase(c: char) -> (r: bool)
    ensures
        r == unicode_is_uppercase(c),
        (c as u32) < 128 ==> (r <==> ('A' <= c && c <= 'Z')),
{
    c.is_uppercase()
}

/// `char::is_lowercase`. Trusted: the answer is a function of the character
/// (its Unicode `Lowercase` property); among ASCII characters exactly `a`..`z` have it.
#[verifier::external_body]
fn char_is_lowercase(c: char) -> (r: bool)
    ensures
        r == unicode_is_lowercase(c),
        (c as u32) < 128 ==> (r <==> ('a' <= c && c <= 'z')),
{
    c.is_lowercase()
}

/// `char::is_numeric`. Trusted: the answer is a function of the character
/// (its Unicode numeric categories); among ASCII characters exactly `0`..`9` have it.
#[verifier::external_body]
fn char_is_numeric(c: char) -> (r: bool)
    ensures
        r == unicode_is_numeric(c),
        (c as u32) < 128 ==> (r <==> ('0' <= c && c <= '9')),
{
    c.is_numeric()
}

/// `char::is_alphanumeric`. Trusted: the answer is a function of the character
/// (alphabetic or numeric); among ASCII characters exactly letters and digits have it.
#[verifier::external_body]
fn char_is_alphanumeric(c: char) -> (r: bool)
    ensures
        r == unicode_is_alphanumeric(c),
        (c as u32) < 128 ==> (r <==> (('a' <= c && c <= 'z') || ('A' <= c && c <= 'Z') || (
        '0' <= c && c <= '9'))),
{
    c.is_alphanumeric()
}

/// The character classes that the password rules look for.
#[derive(Debug, Clone, Copy, PartialEq, Eq, Structural)]
pub enum CharClass {
    /// Upper-case letters.
    Upper,
    /// Lower-case letters.
    Lower,
    /// Digits and other numeric characters.
    Digit,
    /// Anything that is neither a letter nor a digit.
    Special,
}

/// Whether a character belongs to a class.
pub open spec fn in_class(c: char, k: CharClass) -> bool {
    match k {
        CharClass::Upper => unicode_is_uppercase(c),
        CharClass::Lower => unicode_is_lowercase(c),
        CharClass::Digit => unicode_is_numeric(c),
        CharClass::Special => !unicode_is_alphanumeric(c),
    }
}

/// Whether some character of `s` belongs to the class.
pub open spec fn has_class(s: Seq<char>, k: CharClass) -> bool {
    exists|i: int| 0 <= i < s.len() && #[trigger] in_class(s[i], k)
}

fn char_in_class(c: char, k: CharClass) -> (r: bool)
    ensures
        r == in_class(c, k),
{
    match k {
        CharClass::Upper => char_is_uppercase(c),
        CharClass::Lower => char_is_lowercase(c),
        CharClass::Digit => char_is_numeric(c),
        CharClass::Special => !char_is_alphanumeric(c),
    }
}

/// Whether some character of the string belongs to the class.
pub fn contains_class(s: &str, k: CharClass) -> (r: bool)
    ensures
        r == has_class(s@, k),
{
    let v = chars_of(s);
    let mut i: usize = 0;
    while i < v.len()
        invariant
            i <= v.len(),
            v@ == s@,
            forall|j: int| 0 <= j < i ==> !#[trigger] in_class(v@[j], k),
        decreases v.len() - i,
    {
        if char_in_class(v[i], k) {
            return true;
        }
        i = i + 1;
    }
    false
}

/// Password strength levels.
#[derive(Debug, Clone, Copy, PartialEq, Eq, Structural, PartialOrd, Ord)]
pub enum PasswordStrength {
    /// Very weak password (score 0-20)
    VeryWeak,
    /// Weak password (score 21-40)
    Weak,
    /// Fair password (score 41-60)
    Fair,
    /// Strong password (score 61-80)
    Strong,
    /// Very strong password (score 81-100)
    VeryStrong,
}

/// The strength level that a score falls in.
pub open spec fn strength_of_score(score: int) -> PasswordStrength {
    if score <= 20 {
        PasswordStrength::VeryWeak
    } else if score <= 40 {
        PasswordStrength::Weak
    } else if score <= 60 {
        PasswordStrength::Fair
    } else if score <= 80 {
        PasswordStrength::Strong
    } else {
        PasswordStrength::VeryStrong
    }
}

impl PasswordStrength {
    /// Position of the level, from the weakest (0) to the strongest (4).
    pub open spec fn rank(self) -> int {
        match self {
            PasswordStrength::VeryWeak => 0,
            PasswordStrength::Weak => 1,
            PasswordStrength::Fair => 2,
            PasswordStrength::Strong => 3,
            PasswordStrength::VeryStrong => 4,
        }
    }

    /// Display label.
    pub open spec fn label(self) -> Seq<char> {
        match self {
            PasswordStrength::VeryWeak => "Very Weak"@,
            PasswordStrength::Weak => "Weak"@,
            PasswordStrength::Fair => "Fair"@,
            PasswordStrength::Strong => "Strong"@,
            PasswordStrength::VeryStrong => "Very Strong"@,
        }
    }

    fn level(&self) -> (r: u8)
        ensures
            r == self.rank(),
    {
        match self {
            PasswordStrength::VeryWeak => 0,
            PasswordStrength::Weak => 1,
            PasswordStrength::Fair => 2,
            PasswordStrength::Strong => 3,
            PasswordStrength::VeryStrong => 4,
        }
    }

    /// The strength level for a score.
    pub fn from_score(score: u32) -> (r: Self)
        ensures
            r == strength_of_score(score as int),
    {
        if score <= 20 {
            PasswordStrength::VeryWeak
        } else if score <= 40 {
            PasswordStrength::Weak
        } else if score <= 60 {
            PasswordStrength::Fair
        } else if score <= 80 {
            PasswordStrength::Strong
        } else {
            PasswordStrength::VeryStrong
        }
    }

    /// Display label of the level.
    pub fn as_str(&self) -> (r: &'static str)
        ensures
            r@ == self.label(),
    {
        match self {
            PasswordStrength::VeryWeak => "Very Weak",
            PasswordStrength::Weak => "Weak",
            PasswordStrength::Fair => "Fair",
            PasswordStrength::Strong => "Strong",
            PasswordStrength::VeryStrong => "Very Strong",
        }
    }

    /// Whether this level is at least `min`.
    pub fn meets_minimum(&self, min: PasswordStrength) -> (r: bool)
        ensures
            r == (self.rank() >= min.rank()),
    {
        self.level() >= min.level()
    }
}

/// Password strength evaluation result.
#[derive(Debug, Clone)]
pub struct PasswordStrengthResult {
    pub strength: PasswordStrength,
    pub score: u32,
    pub feedback: Vec<String>,
    pub is_acceptable: bool,
}

/// Password policy configuration.
#[derive(Debug, Clone, Copy, PartialEq, Eq, Structural)]
pub struct PasswordPolicy {
    /// Minimum password length (in bytes)
    pub min_length: usize,
    /// Maximum password length (in bytes)
    pub max_length: usize,
    /// Require at least one uppercase letter
    pub require_uppercase: bool,
    /// Require at least one lowercase letter
    pub require_lowercase: bool,
    /// Require at least one digit
    pub require_digit: bool,
    /// Require at least one special character
    pub require_special: bool,
    /// Minimum password strength level
    pub min_strength: PasswordStrength,
    /// Disallow common passwords
    pub disallow_common: bool,
    /// Disallow username in password
    pub disallow_username: bool,
    /// Password expiry in days (0 = no expiry)
    pub expiry_days: u32,
    /// Number of previous passwords to remember
    pub history_count: usize,
    /// Minimum time between password changes (hours)
    pub min_age_hours: u32,
}

/// The passwords rejected as too common, in lower case.
pub open spec fn is_common_lowercase(s: Seq<char>) -> bool {
    ||| s == "password"@
    ||| s == "123456"@
    ||| s == "12345678"@
    ||| s == "qwerty"@
    ||| s == "abc123"@
    ||| s == "monkey"@
    ||| s == "1234567"@
    ||| s == "letmein"@
    ||| s == "trustno1"@
    ||| s == "dragon"@
    ||| s == "baseball"@
    ||| s == "111111"@
    ||| s == "iloveyou"@
    ||| s == "master"@
    ||| s == "sunshine"@
    ||| s == "ashley"@
    ||| s == "bailey"@
    ||| s == "passw0rd"@
    ||| s == "shadow"@
    ||| s == "123123"@
    ||| s == "654321"@
    ||| s == "superman"@
    ||| s == "qazwsx"@
    ||| s == "michael"@
    ||| s == "football"@
}

/// Whether a password is on the common list, ignoring case.
pub open spec fn spec_is_common(password: Seq<char>) -> bool {
    is_common_lowercase(unicode_lowercase(password))
}

/// Characters `i`, `i + 1` and `i + 2` of `s` have consecutive code points.
pub open spec fn consecutive_at(s: Seq<char>, i: int) -> bool {
    &&& 0 <= i
    &&& i + 2 < s.len()
    &&& (s[i + 1] as u32) as int == (s[i] as u32) as int + 1
    &&& (s[i + 2] as u32) as int == (s[i + 1] as u32) as int + 1
}

/// Whether three consecutive characters of `s` have consecutive code points.
pub open spec fn spec_has_consecutive(s: Seq<char>) -> bool {
    exists|i: int| #[trigger] consecutive_at(s, i)
}

/// Characters `i`, `i + 1` and `i + 2` of `s` are the same.
pub open spec fn repeating_at(s: Seq<char>, i: int) -> bool {
    &&& 0 <= i
    &&& i + 2 < s.len()
    &&& s[i] == s[i + 1]
    &&& s[i + 1] == s[i + 2]
}

/// Whether three consecutive characters of `s` are the same.
pub open spec fn spec_has_repeating(s: Seq<char>) -> bool {
    exists|i: int| #[trigger] repeating_at(s, i)
}

/// Whether the password holds the user name, ignoring case.
pub open spec fn contains_username(password: Seq<char>, username: Option<Seq<char>>) -> bool {
    match username {
        Some(u) => seq_contains(unicode_lowercase(password), unicode_lowercase(u)),
        None => false,
    }
}

/// Text of the minimum-length violation.
pub open spec fn msg_too_short(n: nat) -> Seq<char> {
    "Password must be at least "@ + decimal(n) + " characters"@
}

/// Text of the maximum-length violation.
pub open spec fn msg_too_long(n: nat) -> Seq<char> {
    "Password must not exceed "@ + decimal(n) + " characters"@
}

/// Appends `msg` when `cond` holds.
pub open spec fn push_if(s: Seq<Seq<char>>, cond: bool, msg: Seq<char>) -> Seq<Seq<char>> {
    if cond {
        s.push(msg)
    } else {
        s
    }
}

/// Appends a string's text to a list of messages when `cond` holds.
fn push_msg_if(v: &mut Vec<String>, cond: bool, msg: &str)
    ensures
        final(v).deep_view() == push_if(old(v).deep_view(), cond, msg@),
{
    if cond {
        let ghost before = v.deep_view();
        v.push(String::from_str(msg));
        assert(v.deep_view() =~= before.push(msg@));
    }
}

/// Appends an owned message.
fn push_string(v: &mut Vec<String>, msg: String)
    ensures
        final(v).deep_view() == old(v).deep_view().push(msg@),
{
    let ghost before = v.deep_view();
    let ghost m = msg@;
    v.push(msg);
    assert(v.deep_view() =~= before.push(m));
}

impl PasswordPolicy {
    /// The default policy.
    pub open spec fn spec_default() -> PasswordPolicy {
        PasswordPolicy {
            min_length: 8,
            max_length: 128,
            require_uppercase: true,
            require_lowercase: true,
            require_digit: true,
            require_special: true,
            min_strength: PasswordStrength::Fair,
            disallow_common: true,
            disallow_username: true,
            expiry_days: 90,
            history_count: 5,
            min_age_hours: 24,
        }
    }

    /// The strict policy.
    pub open spec fn spec_strict() -> PasswordPolicy {
        PasswordPolicy {
            min_length: 12,
            max_length: 128,
            require_uppercase: true,
            require_lowercase: true,
            require_digit: true,
            require_special: true,
            min_strength: PasswordStrength::Strong,
            disallow_common: true,
            disallow_username: true,
            expiry_days: 60,
            history_count: 10,
            min_age_hours: 24,
        }
    }

    /// The relaxed policy.
    pub open spec fn spec_relaxed() -> PasswordPolicy {
        PasswordPolicy {
            min_length: 6,
            max_length: 128,
            require_uppercase: false,
            require_lowercase: true,
            require_digit: false,
            require_special: false,
            min_strength: PasswordStrength::Weak,
            disallow_common: false,
            disallow_username: false,
            expiry_days: 0,
            history_count: 0,
            min_age_hours: 0,
        }
    }

    /// The violations of this policy by a password with the given characters and
    /// byte length, in the order the checks are made.
    pub open spec fn violations(self, password: Seq<char>, byte_len: nat, username: Option<
        Seq<char>,
    >) -> Seq<Seq<char>> {
        let e = self.class_violations(password, self.length_violations(byte_len));
        let e = push_if(
            e,
            self.disallow_username && contains_username(password, username),
            "Password must not contain username"@,
        );
        push_if(
            e,
            self.disallow_common && spec_is_common(password),
            "Password is too common and easily guessed"@,
        )
    }

    /// The length rules broken by a password of `byte_len` bytes.
    pub open spec fn length_violations(self, byte_len: nat) -> Seq<Seq<char>> {
        let e = Seq::<Seq<char>>::empty();
        let e = push_if(e, byte_len < self.min_length, msg_too_short(self.min_length as nat));
        push_if(e, byte_len > self.max_length, msg_too_long(self.max_length as nat))
    }

    /// `e` followed by the character-class rules that the password breaks.
    pub open spec fn class_violations(self, password: Seq<char>, e: Seq<Seq<char>>) -> Seq<
        Seq<char>,
    > {
        let e = push_if(
            e,
            self.require_uppercase && !has_class(password, CharClass::Upper),
            "Password must contain at least one uppercase letter"@,
        );
        let e = push_if(
            e,
            self.require_lowercase && !has_class(password, CharClass::Lower),
            "Password must contain at least one lowercase letter"@,
        );
        let e = push_if(
            e,
            self.require_digit && !has_class(password, CharClass::Digit),
            "Password must contain at least one digit"@,
        );
        push_if(
            e,
            self.require_special && !has_class(password, CharClass::Special),
            "Password must contain at least one special character"@,
        )
    }

    fn length_checks(&self, len: usize) -> (errors: Vec<String>)
        ensures
            errors.deep_view() == self.length_violations(len as nat),
    {
        let mut errors: Vec<String> = Vec::new();
        if len < self.min_length {
            let m = join3(
                "Password must be at least ",
                u64_to_string(self.min_length as u64).as_str(),
                " characters",
            );
            push_string(&mut errors, m);
        }
        if len > self.max_length {
            let m = join3(
                "Password must not exceed ",
                u64_to_string(self.max_length as u64).as_str(),
                " characters",
            );
            push_string(&mut errors, m);
        }
        errors
    }

    fn class_checks(&self, password: &str, errors: &mut Vec<String>)
        ensures
            final(errors).deep_view() == self.class_violations(password@, old(errors).deep_view()),
    {
        let c = self.require_uppercase && !contains_class(password, CharClass::Upper);
        push_msg_if(errors, c, "Password must contain at least one uppercase letter");
        let c = self.require_lowercase && !contains_class(password, CharClass::Lower);
        push_msg_if(errors, c, "Password must contain at least one lowercase letter");
        let c = self.require_digit && !contains_class(password, CharClass::Digit);
        push_msg_if(errors, c, "Password must contain at least one digit");
        let c = self.require_special && !contains_class(password, CharClass::Special);
        push_msg_if(errors, c, "Password must contain at least one special character");
    }

    /// Create a strict password policy for high-security environments.
    pub fn strict() -> (r: Self)
        ensures
            r == Self::spec_strict(),
    {
        PasswordPolicy {
            min_length: 12,
            max_length: 128,
            require_uppercase: true,
            require_lowercase: true,
            require_digit: true,
            require_special: true,
            min_strength: PasswordStrength::Strong,
            disallow_common: true,
            disallow_username: true,
            expiry_days: 60,
            history_count: 10,
            min_age_hours: 24,
        }
    }

    /// Create a relaxed password policy for development.
    pub fn relaxed() -> (r: Self)
        ensures
            r == Self::spec_relaxed(),
    {
        PasswordPolicy {
            min_length: 6,
            max_length: 128,
            require_uppercase: false,
            require_lowercase: true,
            require_digit: false,
            require_special: false,
            min_strength: PasswordStrength::Weak,
            disallow_common: false,
            disallow_username: false,
            expiry_days: 0,
            history_count: 0,
            min_age_hours: 0,
        }
    }

    /// Validate a password against the policy: `Ok` when it breaks no rule,
    /// otherwise every violated rule's message, in order.
    pub fn validate(&self, password: &str, username: Option<&str>) -> (r: Result<(), Vec<String>>)
        ensures
            ({
                let errs = self.violations(
                    password@,
                    password.len() as nat,
                    match username {
                        Some(u) => Some(u@),
                        None => None,
                    },
                );
                match r {
                    Ok(()) => errs.len() == 0,
                    Err(v) => errs.len() > 0 && v.deep_view() == errs,
                }
            }),
    {
        let ghost user: Option<Seq<char>> = match username {
            Some(u) => Some(u@),
            None => None,
        };
        let mut errors = self.length_checks(password.len());
        self.class_checks(password, &mut errors);
        let c = self.disallow_username && password_contains_username(password, username);
        push_msg_if(&mut errors, c, "Password must not contain username");
        let c = self.disallow_common && is_common_password(password);
        push_msg_if(&mut errors, c, "Password is too common and easily guessed");
        assert(errors.deep_view() == self.violations(password@, password.len() as nat, user));
        if errors.len() == 0 {
            Ok(())
        } else {
            Err(errors)
        }
    }
}

impl Default for PasswordPolicy {
    fn default() -> (r: Self)
        ensures
            r == PasswordPolicy::spec_default(),
    {
        PasswordPolicy {
            min_length: 8,
            max_length: 128,
            require_uppercase: true,
            require_lowercase: true,
            require_digit: true,
            require_special: true,
            min_strength: PasswordStrength::Fair,
            disallow_common: true,
            disallow_username: true,
            expiry_days: 90,
            history_count: 5,
            min_age_hours: 24,
        }
    }
}

/// Whether the password holds the user name, ignoring case.
fn password_contains_username(password: &str, username: Option<&str>) -> (r: bool)
    ensures
        r == contains_username(
            password@,
            match username {
                Some(u) => Some(u@),
                None => None,
            },
        ),
{
    match username {
        Some(u) => {
            let p = to_lowercase(password);
            let l = to_lowercase(u);
            str_contains(p.as_str(), l.as_str())
        },
        None => false,
    }
}

/// Points for the length of a password (in bytes).
pub open spec fn length_points(len: nat) -> int {
    if len <= 5 {
        0
    } else if len <= 7 {
        10
    } else if len <= 11 {
        20
    } else if len <= 15 {
        25
    } else {
        30
    }
}

/// How many of the four character classes occur in the password.
pub open spec fn variety_count(password: Seq<char>) -> int {
    (if has_class(password, CharClass::Lower) { 1int } else { 0 }) + (if has_class(
        password,
        CharClass::Upper,
    ) {
        1int
    } else {
        0
    }) + (if has_class(password, CharClass::Digit) { 1int } else { 0 }) + (if has_class(
        password,
        CharClass::Special,
    ) {
        1int
    } else {
        0
    })
}

/// Score before the user-name penalty: length, variety, absence of runs and
/// of repetitions, and absence from the common list.
pub open spec fn base_score(password: Seq<char>, byte_len: nat) -> int {
    length_points(byte_len) + 10 * variety_count(password) + (if !spec_has_consecutive(password) {
        10int
    } else {
        0
    }) + (if !spec_has_repeating(password) {
        10int
    } else {
        0
    }) + (if !spec_is_common(password) {
        10int
    } else {
        0
    })
}

/// The score of a password: a password holding the user name loses 20 points
/// (not below zero), and a common password is rated no higher than Weak.
pub open spec fn password_score(password: Seq<char>, byte_len: nat, username: Option<Seq<char>>) -> int {
    let s = base_score(password, byte_len);
    let s = if contains_username(password, username) {
        if s >= 20 {
            s - 20
        } else {
            0
        }
    } else {
        s
    };
    if spec_is_common(password) && s > 40 {
        40
    } else {
        s
    }
}

/// Advice on length-independent weaknesses of a password.
pub open spec fn base_feedback(password: Seq<char>) -> Seq<Seq<char>> {
    let f = Seq::<Seq<char>>::empty();
    let f = push_if(
        f,
        variety_count(password) < 3,
        "Use a mix of uppercase, lowercase, numbers, and symbols"@,
    );
    let f = push_if(
        f,
        spec_has_consecutive(password),
        "Avoid consecutive characters (abc, 123)"@,
    );
    let f = push_if(f, spec_has_repeating(password), "Avoid repeating characters (aaa, 111)"@);
    push_if(f, spec_is_common(password), "Password is in the list of common passwords"@)
}

/// Advice for a password, before the fallback on policy failure.
pub open spec fn score_feedback(password: Seq<char>, username: Option<Seq<char>>) -> Seq<Seq<char>> {
    push_if(
        base_feedback(password),
        contains_username(password, username),
        "Password should not contain your username"@,
    )
}

/// The base score of a password, the advice on it, and whether it is common.
fn base_evaluation(password: &str) -> (r: (u32, Vec<String>, bool))
    ensures
        r.0 == base_score(password@, password.len() as nat),
        r.0 <= 100,
        r.1.deep_view() == base_feedback(password@),
        r.2 == spec_is_common(password@),
{
    let mut score: u32 = 0;
    let mut feedback: Vec<String> = Vec::new();
    let length = password.len();
    score = if length <= 5 {
        0
    } else if length <= 7 {
        10
    } else if length <= 11 {
        20
    } else if length <= 15 {
        25
    } else {
        30
    };
    let has_lower = contains_class(password, CharClass::Lower);
    let has_upper = contains_class(password, CharClass::Upper);
    let has_digit = contains_class(password, CharClass::Digit);
    let has_special = contains_class(password, CharClass::Special);
    let mut variety: u32 = 0;
    if has_lower {
        variety = variety + 1;
    }
    if has_upper {
        variety = variety + 1;
    }
    if has_digit {
        variety = variety + 1;
    }
    if has_special {
        variety = variety + 1;
    }
    assert(variety == variety_count(password@));
    score = score + variety * 10;
    push_msg_if(
        &mut feedback,
        variety < 3,
        "Use a mix of uppercase, lowercase, numbers, and symbols",
    );
    let consecutive = has_consecutive_chars(password);
    let repeating = has_repeating_chars(password);
    if !consecutive {
        score = score + 10;
    }
    push_msg_if(&mut feedback, consecutive, "Avoid consecutive characters (abc, 123)");
    if !repeating {
        score = score + 10;
    }
    push_msg_if(&mut feedback, repeating, "Avoid repeating characters (aaa, 111)");
    let common = is_common_password(password);
    if !common {
        score = score + 10;
    }
    push_msg_if(&mut feedback, common, "Password is in the list of common passwords");
    (score, feedback, common)
}

/// Password strength evaluator.
pub struct PasswordStrengthEvaluator {
    policy: PasswordPolicy,
}

impl PasswordStrengthEvaluator {
    /// The policy that results are judged against.
    pub closed spec fn spec_policy(&self) -> PasswordPolicy {
        self.policy
    }

    /// An evaluator judging against `policy`.
    pub fn new(policy: PasswordPolicy) -> (r: Self)
        ensures
            r.spec_policy() == policy,
    {
        PasswordStrengthEvaluator { policy }
    }

    /// Evaluate password strength: a score out of 100, its level, advice, and
    /// whether the level meets the policy's minimum and the password passes the policy.
    pub fn evaluate(&self, password: &str, username: Option<&str>) -> (r: PasswordStrengthResult)
        ensures
            ({
                let user = match username {
                    Some(u) => Some(u@),
                    None => None,
                };
                let pol = self.spec_policy();
                let score = password_score(password@, password.len() as nat, user);
                let acceptable = strength_of_score(score).rank() >= pol.min_strength.rank()
                    && pol.violations(password@, password.len() as nat, user).len() == 0;
                let fb = score_feedback(password@, user);
                &&& r.score == score
                &&& r.strength == strength_of_score(score)
                &&& r.is_acceptable == acceptable
                &&& r.feedback.deep_view() == (if !acceptable && fb.len() == 0 {
                    fb.push("Password must meet minimum strength: "@ + pol.min_strength.label())
                } else {
                    fb
                })
            }),
    {
        let ghost user: Option<Seq<char>> = match username {
            Some(u) => Some(u@),
            None => None,
        };
        let (mut score, mut feedback, common) = base_evaluation(password);
        let has_user = password_contains_username(password, username);
        if has_user {
            score = score.saturating_sub(20);
        }
        push_msg_if(&mut feedback, has_user, "Password should not contain your username");
        if common && score > 40 {
            score = 40;
        }
        assert(score == password_score(password@, password.len() as nat, user));
        assert(feedback.deep_view() == score_feedback(password@, user));
        let strength = PasswordStrength::from_score(score);
        let is_acceptable = strength.meets_minimum(self.policy.min_strength) && self.policy.validate(
            password,
            username,
        ).is_ok();
        if !is_acceptable && feedback.len() == 0 {
            let m = join3(
                "Password must meet minimum strength: ",
                self.policy.min_strength.as_str(),
                "",
            );
            proof {
                reveal_strlit("");
                assert(m@ == "Password must meet minimum strength: "@
                    + self.policy.min_strength.label());
            }
            push_string(&mut feedback, m);
        }
        PasswordStrengthResult { strength, score, feedback, is_acceptable }
    }
}

/// Check if a password contains three characters with consecutive code points
/// (such as `abc` or `123`).
pub fn has_consecutive_chars(password: &str) -> (r: bool)
    ensures
        r == spec_has_consecutive(password@),
{
    let chars = chars_of(password);
    let n = chars.len();
    if n < 3 {
        return false;
    }
    let mut i: usize = 0;
    while i < n - 2
        invariant
            n == chars.len(),
            n >= 3,
            i <= n - 2,
            chars@ == password@,
            forall|j: int| 0 <= j < i ==> !#[trigger] consecutive_at(chars@, j),
        decreases n - i,
    {
        let c1 = chars[i] as u32;
        let c2 = chars[i + 1] as u32;
        let c3 = chars[i + 2] as u32;
        if c2 as u64 == c1 as u64 + 1 && c3 as u64 == c2 as u64 + 1 {
            assert(consecutive_at(chars@, i as int));
            return true;
        }
        i = i + 1;
    }
    assert forall|j: int| !#[trigger] consecutive_at(chars@, j) by {
        if consecutive_at(chars@, j) {
            assert(j < i);
        }
    }
    false
}

/// Check if a password has three equal characters in a row.
pub fn has_repeating_chars(password: &str) -> (r: bool)
    ensures
        r == spec_has_repeating(password@),
{
    let chars = chars_of(password);
    let n = chars.len();
    if n < 3 {
        return false;
    }
    let mut i: usize = 0;
    while i < n - 2
        invariant
            n == chars.len(),
            n >= 3,
            i <= n - 2,
            chars@ == password@,
            forall|j: int| 0 <= j < i ==> !#[trigger] repeating_at(chars@, j),
        decreases n - i,
    {
        if chars[i] == chars[i + 1] && chars[i + 1] == chars[i + 2] {
            assert(repeating_at(chars@, i as int));
            return true;
        }
        i = i + 1;
    }
    assert forall|j: int| !#[trigger] repeating_at(chars@, j) by {
        if repeating_at(chars@, j) {
            assert(j < i);
        }
    }
    false
}

/// Check if a password, lower-cased, is on the list of common passwords.
pub fn is_common_password(password: &str) -> (r: bool)
    ensures
        r == spec_is_common(password@),
{
    let l = to_lowercase(password);
    let s = l.as_str();
    str_eq(s, "password") || str_eq(s, "123456") || str_eq(s, "12345678") || str_eq(s, "qwerty")
        || str_eq(s, "abc123") || str_eq(s, "monkey") || str_eq(s, "1234567") || str_eq(
        s,
        "letmein",
    ) || str_eq(s, "trustno1") || str_eq(s, "dragon") || str_eq(s, "baseball") || str_eq(
        s,
        "111111",
    ) || str_eq(s, "iloveyou") || str_eq(s, "master") || str_eq(s, "sunshine") || str_eq(
        s,
        "ashley",
    ) || str_eq(s, "bailey") || str_eq(s, "passw0rd") || str_eq(s, "shadow") || str_eq(
        s,
        "123123",
    ) || str_eq(s, "654321") || str_eq(s, "superman") || str_eq(s, "qazwsx") || str_eq(
        s,
        "michael",
    ) || str_eq(s, "football")
}

/// Security event types for audit logging.
#[derive(Debug, Clone)]
pub enum SecurityEvent {
    /// User login attempt
    LoginAttempt { username: String, ip: String, success: bool, method: String, reason: Option<String> },
    /// User logout
    Logout { username: String, ip: String, session_duration_seconds: u64 },
    /// Password change
    PasswordChange { username: String, ip: String, forced: bool },
    /// Account lockout
    AccountLockout { username: String, ip: String, reason: String, duration_seconds: u64 },
    /// Permission denied
    PermissionDenied { username: String, ip: String, resource: String, action: String },
    /// Security policy violation
    PolicyViolation { username: Option<String>, ip: String, policy: String, details: String },
    /// Suspicious activity detected
    SuspiciousActivity { username: Option<String>, ip: String, activity: String, risk_score: u32 },
    /// Admin action
    AdminAction { admin_username: String, ip: String, action: String, target: String },
}

/// Security event severity.
#[derive(Debug, Clone, Copy, PartialEq, Eq, Structural)]
pub enum SecuritySeverity {
    /// Informational event
    Info,
    /// Low severity
    Low,
    /// Medium severity
    Medium,
    /// High severity
    High,
    /// Critical severity
    Critical,
}

fn copy_opt(s: &Option<String>) -> (r: Option<String>)
    ensures
        r == *s,
{
    match s {
        Some(x) => Some(x.clone()),
        None => None,
    }
}

impl SecurityEvent {
    pub fn duplicate(&self) -> (r: Self)
        ensures
            r == *self,
    {
        match self {
            SecurityEvent::LoginAttempt { username, ip, success, method, reason } => SecurityEvent::LoginAttempt {
                username: username.clone(),
                ip: ip.clone(),
                success: *success,
                method: method.clone(),
                reason: copy_opt(reason),
            },
            SecurityEvent::Logout { username, ip, session_duration_seconds } => SecurityEvent::Logout {
                username: username.clone(),
                ip: ip.clone(),
                session_duration_seconds: *session_duration_seconds,
            },
            SecurityEvent::PasswordChange { username, ip, forced } => SecurityEvent::PasswordChange {
                username: username.clone(),
                ip: ip.clone(),
                forced: *forced,
            },
            SecurityEvent::AccountLockout { username, ip, reason, duration_seconds } => SecurityEvent::AccountLockout {
                username: username.clone(),
                ip: ip.clone(),
                reason: reason.clone(),
                duration_seconds: *duration_seconds,
            },
            SecurityEvent::PermissionDenied { username, ip, resource, action } => SecurityEvent::PermissionDenied {
                username: username.clone(),
                ip: ip.clone(),
                resource: resource.clone(),
                action: action.clone(),
            },
            SecurityEvent::PolicyViolation { username, ip, policy, details } => SecurityEvent::PolicyViolation {
                username: copy_opt(username),
                ip: ip.clone(),
                policy: policy.clone(),
                details: details.clone(),
            },
            SecurityEvent::SuspiciousActivity { username, ip, activity, risk_score } => SecurityEvent::SuspiciousActivity {
                username: copy_opt(username),
                ip: ip.clone(),
                activity: activity.clone(),
                risk_score: *risk_score,
            },
            SecurityEvent::AdminAction { admin_username, ip, action, target } => SecurityEvent::AdminAction {
                admin_username: admin_username.clone(),
                ip: ip.clone(),
                action: action.clone(),
                target: target.clone(),
            },
        }
    }
}

/// The user an event is about, for the events that name one for certain.
pub open spec fn event_user(e: SecurityEvent) -> Option<Seq<char>> {
    match e {
        SecurityEvent::LoginAttempt { username, .. } => Some(username@),
        SecurityEvent::Logout { username, .. } => Some(username@),
        SecurityEvent::PasswordChange { username, .. } => Some(username@),
        SecurityEvent::AccountLockout { username, .. } => Some(username@),
        SecurityEvent::PermissionDenied { username, .. } => Some(username@),
        _ => None,
    }
}

/// The address an event came from.
pub open spec fn event_ip(e: SecurityEvent) -> Seq<char> {
    match e {
        SecurityEvent::LoginAttempt { ip, .. } => ip@,
        SecurityEvent::Logout { ip, .. } => ip@,
        SecurityEvent::PasswordChange { ip, .. } => ip@,
        SecurityEvent::AccountLockout { ip, .. } => ip@,
        SecurityEvent::PermissionDenied { ip, .. } => ip@,
        SecurityEvent::PolicyViolation { ip, .. } => ip@,
        SecurityEvent::SuspiciousActivity { ip, .. } => ip@,
        SecurityEvent::AdminAction { ip, .. } => ip@,
    }
}

fn event_user_is(e: &SecurityEvent, username: &str) -> (r: bool)
    ensures
        r == (event_user(*e) == Some(username@)),
{
    match e {
        SecurityEvent::LoginAttempt { username: u, .. } => str_eq(u.as_str(), username),
        SecurityEvent::Logout { username: u, .. } => str_eq(u.as_str(), username),
        SecurityEvent::PasswordChange { username: u, .. } => str_eq(u.as_str(), username),
        SecurityEvent::AccountLockout { username: u, .. } => str_eq(u.as_str(), username),
        SecurityEvent::PermissionDenied { username: u, .. } => str_eq(u.as_str(), username),
        _ => false,
    }
}

fn event_ip_is(e: &SecurityEvent, ip: &str) -> (r: bool)
    ensures
        r == (event_ip(*e) == ip@),
{
    match e {
        SecurityEvent::LoginAttempt { ip: i, .. } => str_eq(i.as_str(), ip),
        SecurityEvent::Logout { ip: i, .. } => str_eq(i.as_str(), ip),
        SecurityEvent::PasswordChange { ip: i, .. } => str_eq(i.as_str(), ip),
        SecurityEvent::AccountLockout { ip: i, .. } => str_eq(i.as_str(), ip),
        SecurityEvent::PermissionDenied { ip: i, .. } => str_eq(i.as_str(), ip),
        SecurityEvent::PolicyViolation { ip: i, .. } => str_eq(i.as_str(), ip),
        SecurityEvent::SuspiciousActivity { ip: i, .. } => str_eq(i.as_str(), ip),
        SecurityEvent::AdminAction { ip: i, .. } => str_eq(i.as_str(), ip),
    }
}

/// One piece of extra information on an audit entry.
#[derive(Debug, Clone)]
pub struct MetadataEntry {
    pub key: String,
    pub value: String,
}

impl Keyed for MetadataEntry {
    type Key = str;

    open spec fn key(&self) -> Seq<char> {
        self.key@
    }

    open spec fn inv(&self) -> bool {
        true
    }

    fn key_ref(&self) -> (r: &str) {
        let r = self.key.as_str();
        assert(r.kv() == r@);
        r
    }
}

/// Security audit log entry; the time is in milliseconds since the Unix epoch.
#[derive(Debug)]
pub struct SecurityAuditEntry {
    pub id: u128,
    pub timestamp: i64,
    pub event: SecurityEvent,
    pub severity: SecuritySeverity,
    pub metadata: Store<MetadataEntry>,
}

/// The two entries hold the same values (the metadata by its entries).
pub open spec fn same_entry(a: SecurityAuditEntry, b: SecurityAuditEntry) -> bool {
    &&& a.id == b.id && a.timestamp == b.timestamp && a.event == b.event && a.severity == b.severity
    &&& a.metadata.items() == b.metadata.items()
}

fn copy_metadata(s: &Store<MetadataEntry>) -> (r: Store<MetadataEntry>)
    requires
        s.wf(),
    ensures
        r.wf(),
        r.items() == s.items(),
{
    let ghost items = s.items();
    let mut out: Store<MetadataEntry> = Store::new();
    let mut i: usize = 0;
    while i < s.len()
        invariant
            items == s.items(),
            s.wf(),
            i <= items.len(),
            out.wf(),
            out.items() == items.take(i as int),
        decreases items.len() - i,
    {
        let m = MetadataEntry { key: s.at(i).key.clone(), value: s.at(i).value.clone() };
        assert(m == items[i as int]);
        proof {
            assert forall|j: int| 0 <= j < out.items().len() implies (#[trigger] out.items()[j]).key() != m.key() by {
                assert(out.items()[j] == items[j]);
            }
        }
        out.push_new(m);
        i = i + 1;
        assert(out.items() =~= items.take(i as int));
    }
    assert(items.take(i as int) =~= items);
    out
}

impl SecurityAuditEntry {
    /// An entry for an event at `now`, without metadata.
    pub fn new_at(id: u128, event: SecurityEvent, severity: SecuritySeverity, now: i64) -> (r: Self)
        ensures
            r.id == id && r.event == event && r.severity == severity && r.timestamp == now,
            r.metadata.wf() && r.metadata.items().len() == 0,
    {
        SecurityAuditEntry { id, timestamp: now, event, severity, metadata: Store::new() }
    }

    /// An entry for an event now, with a fresh identifier.
    pub fn new(event: SecurityEvent, severity: SecuritySeverity) -> (r: Self)
        ensures
            is_v4_uuid(r.id) && r.event == event && r.severity == severity,
            r.metadata.wf() && r.metadata.items().len() == 0,
    {
        let id = new_uuid();
        Self::new_at(id, event, severity, now_millis())
    }

    /// The entry with a piece of metadata set (replacing one with the same key).
    pub fn with_metadata(self, key: String, value: String) -> (r: Self)
        requires
            self.metadata.wf(),
        ensures
            r.metadata.wf(),
            r.metadata.get_spec(key@) == Some(MetadataEntry { key, value }),
            forall|k: Seq<char>| k != key@ ==> r.metadata.get_spec(k) == self.metadata.get_spec(k),
            r.id == self.id && r.event == self.event && r.severity == self.severity && r.timestamp == self.timestamp,
    {
        let mut e = self;
        e.metadata.insert(MetadataEntry { key, value });
        e
    }

    pub fn duplicate(&self) -> (r: Self)
        requires
            self.metadata.wf(),
        ensures
            r.metadata.wf(),
            same_entry(r, *self),
    {
        SecurityAuditEntry {
            id: self.id,
            timestamp: self.timestamp,
            event: self.event.duplicate(),
            severity: self.severity,
            metadata: copy_metadata(&self.metadata),
        }
    }
}

/// An entry just made for an event.
pub open spec fn fresh_entry(x: SecurityAuditEntry, id: u128, event: SecurityEvent, severity: SecuritySeverity, now: i64) -> bool {
    &&& x.id == id && x.event == event && x.severity == severity && x.timestamp == now
    &&& x.metadata.wf() && x.metadata.items().len() == 0
}

/// Whether an event of this severity raises an alert: high and critical ones do.
pub open spec fn raises_alert(severity: SecuritySeverity) -> bool {
    severity == SecuritySeverity::High || severity == SecuritySeverity::Critical
}

/// Whether an event of this severity raises an alert.
pub fn is_alert_severity(severity: SecuritySeverity) -> (r: bool)
    ensures
        r == raises_alert(severity),
{
    match severity {
        SecuritySeverity::High | SecuritySeverity::Critical => true,
        _ => false,
    }
}

/// Security audit logger: the latest entries, oldest first, at most
/// `max_entries` of them. Alerts for high and critical events are raised by
/// the caller, which learns of them from `is_alert_severity`.
pub struct SecurityAuditLogger {
    entries: Vec<SecurityAuditEntry>,
    max_entries: usize,
}

/// Copies of the entries.
pub open spec fn same_entries(a: Seq<SecurityAuditEntry>, b: Seq<SecurityAuditEntry>) -> bool {
    &&& a.len() == b.len()
    &&& forall|i: int| 0 <= i < a.len() ==> same_entry(#[trigger] a[i], b[i])
}

impl SecurityAuditLogger {
    pub closed spec fn spec_entries(&self) -> Seq<SecurityAuditEntry> {
        self.entries@
    }

    pub closed spec fn spec_max_entries(&self) -> usize {
        self.max_entries
    }

    /// Every entry's metadata is well formed.
    pub open spec fn wf(&self) -> bool {
        forall|i: int| 0 <= i < self.spec_entries().len() ==> (#[trigger] self.spec_entries()[i]).metadata.wf()
    }

    pub fn new(max_entries: usize) -> (r: Self)
        ensures
            r.wf(),
            r.spec_entries().len() == 0,
            r.spec_max_entries() == max_entries,
    {
        SecurityAuditLogger { entries: Vec::new(), max_entries }
    }

    /// Records an event at `now` under `id`; past `max_entries` the oldest
    /// entry goes.
    pub fn log_at(&mut self, event: SecurityEvent, severity: SecuritySeverity, id: u128, now: i64) -> (r: u128)
        requires
            old(self).wf(),
        ensures
            final(self).wf(),
            r == id,
            final(self).spec_max_entries() == old(self).spec_max_entries(),
            ({
                let n = old(self).spec_entries().len();
                let drop: int = if n + 1 > old(self).spec_max_entries() { 1 } else { 0 };
                &&& final(self).spec_entries().len() == n + 1 - drop
                &&& forall|i: int| 0 <= i < final(self).spec_entries().len() ==> if i + drop < n {
                    same_entry(#[trigger] final(self).spec_entries()[i], old(self).spec_entries()[i + drop])
                } else {
                    fresh_entry(final(self).spec_entries()[i], id, event, severity, now)
                }
            }),
    {
        let entry = SecurityAuditEntry::new_at(id, event, severity, now);
        let ghost before = self.entries@;
        self.entries.push(entry);
        let ghost added = self.entries@;
        if self.entries.len() > self.max_entries {
            let _ = self.entries.remove(0);
        }
        proof {
            let m = self.entries@.len();
            let drop: int = added.len() - m;
            assert forall|i: int| 0 <= i < m implies self.entries@[i] == added[i + drop] by {
            }
            assert forall|i: int| 0 <= i < m implies (#[trigger] self.entries@[i]).metadata.wf() by {
                if i + drop < before.len() {
                    assert(added[i + drop] == before[i + drop]);
                }
            }
        }
        id
    }

    /// Records an event now, with a fresh identifier.
    pub fn log(&mut self, event: SecurityEvent, severity: SecuritySeverity) -> (r: u128)
        requires
            old(self).wf(),
        ensures
            final(self).wf(),
            is_v4_uuid(r),
            exists|now: i64, id: u128| #![trigger clock_reading(now), is_v4_uuid(id)] clock_reading(now) && is_v4_uuid(id) && {
                &&& (r == id)
                &&& (final(self).spec_max_entries() == old(self).spec_max_entries())
                &&& (({
                    let n = old(self).spec_entries().len();
                    let drop: int = if n + 1 > old(self).spec_max_entries() { 1 } else { 0 };
                    &&& final(self).spec_entries().len() == n + 1 - drop
                    &&& forall|i: int| 0 <= i < final(self).spec_entries().len() ==> if i + drop < n {
                        same_entry(#[trigger] final(self).spec_entries()[i], old(self).spec_entries()[i + drop])
                    } else {
                        fresh_entry(final(self).spec_entries()[i], id, event, severity, now)
                    }
                }))
            },
    {
        let now = now_millis();
        let id = new_uuid();
        proof {
            assert(clock_reading(now));
        }
        self.log_at(event, severity, id, now)
    }
}

/// Which entries a query picks.
pub enum EntrySelector {
    Severity(SecuritySeverity),
    User(String),
    Ip(String),
}

/// Whether an entry is picked.
pub open spec fn selected(sel: EntrySelector, e: SecurityAuditEntry) -> bool {
    match sel {
        EntrySelector::Severity(s) => e.severity == s,
        EntrySelector::User(u) => event_user(e.event) == Some(u@),
        EntrySelector::Ip(ip) => event_ip(e.event) == ip@,
    }
}

impl SecurityAuditLogger {
    fn select(&self, sel: &EntrySelector) -> (r: Vec<SecurityAuditEntry>)
        requires
            self.wf(),
        ensures
            same_entries(r@, self.spec_entries().filter(|e: SecurityAuditEntry| selected(*sel, e))),
            forall|i: int| 0 <= i < r@.len() ==> (#[trigger] r@[i]).metadata.wf(),
    {
        let ghost all = self.entries@;
        let ghost f = |e: SecurityAuditEntry| selected(*sel, e);
        let mut out: Vec<SecurityAuditEntry> = Vec::new();
        let mut i: usize = 0;
        assert(all.take(0).filter(f) =~= Seq::<SecurityAuditEntry>::empty());
        while i < self.entries.len()
            invariant
                all == self.entries@,
                self.wf(),
                i <= all.len(),
                f == (|e: SecurityAuditEntry| selected(*sel, e)),
                same_entries(out@, all.take(i as int).filter(f)),
                forall|k: int| 0 <= k < out@.len() ==> (#[trigger] out@[k]).metadata.wf(),
            decreases all.len() - i,
        {
            proof {
                reveal(Seq::filter);
                assert(all.take(i + 1).drop_last() =~= all.take(i as int));
                assert(all[i as int].metadata.wf());
            }
            let e = &self.entries[i];
            let pick = match sel {
                EntrySelector::Severity(s) => e.severity == *s,
                EntrySelector::User(u) => event_user_is(&e.event, u.as_str()),
                EntrySelector::Ip(ip) => event_ip_is(&e.event, ip.as_str()),
            };
            if pick {
                out.push(e.duplicate());
            }
            i = i + 1;
        }
        assert(all.take(i as int) =~= all);
        out
    }

    /// Copies of the latest entries, newest first, at most `count` of them.
    pub fn get_recent(&self, count: usize) -> (r: Vec<SecurityAuditEntry>)
        requires
            self.wf(),
        ensures
            same_entries(
                r@,
                self.spec_entries().reverse().take(
                    if count < self.spec_entries().len() { count as int } else { self.spec_entries().len() as int },
                ),
            ),
    {
        let ghost all = self.entries@;
        let n = self.entries.len();
        let mut out: Vec<SecurityAuditEntry> = Vec::new();
        let mut k: usize = 0;
        while k < count && k < n
            invariant
                all == self.entries@,
                self.wf(),
                n == all.len(),
                k <= n,
                k <= count,
                same_entries(out@, all.reverse().take(k as int)),
            decreases n - k,
        {
            proof {
                assert(all[n - 1 - k].metadata.wf());
                assert(all.reverse()[k as int] == all[n - 1 - k]);
            }
            out.push(self.entries[n - 1 - k].duplicate());
            k = k + 1;
            proof {
                assert forall|i: int| 0 <= i < out@.len() implies same_entry(#[trigger] out@[i], all.reverse().take(k as int)[i]) by {
                    assert(all.reverse().take(k as int)[i] == all.reverse()[i]);
                    if i < k - 1 {
                        assert(all.reverse().take(k - 1)[i] == all.reverse()[i]);
                    }
                }
            }
        }
        assert(k as int == if count < n { count as int } else { n as int });
        assert(all.reverse().len() == n);
        out
    }

    /// Copies of the entries of a severity, oldest first.
    pub fn get_by_severity(&self, severity: SecuritySeverity) -> (r: Vec<SecurityAuditEntry>)
        requires
            self.wf(),
        ensures
            same_entries(r@, self.spec_entries().filter(|e: SecurityAuditEntry| e.severity == severity)),
    {
        let sel = EntrySelector::Severity(severity);
        let r = self.select(&sel);
        proof {
            assert((|e: SecurityAuditEntry| selected(sel, e)) =~= (|e: SecurityAuditEntry| e.severity == severity));
        }
        r
    }

    /// Copies of the entries about a user (logins, logouts, password
    /// changes, lockouts and refusals that name the user), oldest first.
    pub fn get_by_user(&self, username: &str) -> (r: Vec<SecurityAuditEntry>)
        requires
            self.wf(),
        ensures
            same_entries(r@, self.spec_entries().filter(|e: SecurityAuditEntry| event_user(e.event) == Some(username@))),
    {
        let sel = EntrySelector::User(username.to_string());
        let r = self.select(&sel);
        proof {
            assert((|e: SecurityAuditEntry| selected(sel, e)) =~= (|e: SecurityAuditEntry| event_user(e.event) == Some(username@)));
        }
        r
    }

    /// Copies of the entries from an address, oldest first.
    pub fn get_by_ip(&self, ip: &str) -> (r: Vec<SecurityAuditEntry>)
        requires
            self.wf(),
        ensures
            same_entries(r@, self.spec_entries().filter(|e: SecurityAuditEntry| event_ip(e.event) == ip@)),
    {
        let sel = EntrySelector::Ip(ip.to_string());
        let r = self.select(&sel);
        proof {
            assert((|e: SecurityAuditEntry| selected(sel, e)) =~= (|e: SecurityAuditEntry| event_ip(e.event) == ip@));
        }
        r
    }

    /// Forgets every entry.
    pub fn clear(&mut self)
        ensures
            final(self).wf(),
            final(self).spec_entries().len() == 0,
            final(self).spec_max_entries() == old(self).spec_max_entries(),
    {
        self.entries.clear();
    }

    pub fn count(&self) -> (r: usize)
        ensures
            r == self.spec_entries().len(),
    {
        self.entries.len()
    }
}

} // verus!
