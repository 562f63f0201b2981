//! Renaming rules: how a declared field name becomes its serialized name.
//!
//! A field name is taken to be written in `snake_case`; nothing is done to
//! find word boundaries other than `_`.

use vstd::prelude::*;
use crate::schema::error::{Error, Failure};
use crate::text::{ascii_lower, ascii_upper, same_text};

verus! {

/// A renaming convention.
#[derive(Debug, Clone, Copy, PartialEq, Eq, Structural, Hash)]
pub enum RenameRule {
    /// `lowercase`
    LowerCase,
    /// `UPPERCASE`
    Uppercase,
    /// `PascalCase`
    PascalCase,
    /// `camelCase`
    CamelCase,
    /// `snake_case`
    SnakeCase,
    /// `SCREAMING_SNAKE_CASE`
    ScreamingSnakeCase,
    /// `kebab-case`
    KebabCase,
    /// `SCREAMING-KEBAB-CASE`
    ScreamingKebabCase,
}

/// Every ASCII letter in upper case.
pub open spec fn uppercased(s: Seq<char>) -> Seq<char> {
    Seq::new(s.len(), |i: int| ascii_upper(s[i]))
}

/// Every `_` replaced by `-`.
pub open spec fn dashed(s: Seq<char>) -> Seq<char> {
    Seq::new(
        s.len(),
        |i: int|
            if s[i] == '_' {
                '-'
            } else {
                s[i]
            },
    )
}

/// The first `n` characters in `PascalCase`: each `_` is dropped, and a
/// character that starts the name or follows a `_` is put in upper case.
pub open spec fn pascal_prefix(s: Seq<char>, n: nat) -> Seq<char>
    decreases n,
{
    if n == 0 || n > s.len() {
        Seq::empty()
    } else {
        let i = n - 1;
        let head = pascal_prefix(s, i as nat);
        if s[i] == '_' {
            head
        } else if i == 0 || s[i - 1] == '_' {
            head.push(ascii_upper(s[i]))
        } else {
            head.push(s[i])
        }
    }
}

/// The whole name in `PascalCase`.
pub open spec fn pascal(s: Seq<char>) -> Seq<char> {
    pascal_prefix(s, s.len())
}

/// The first character in lower case.
pub open spec fn decapitalized(s: Seq<char>) -> Seq<char> {
    if s.len() == 0 {
        s
    } else {
        seq![ascii_lower(s[0])] + s.skip(1)
    }
}

impl RenameRule {
    /// What the rule makes of a field name.
    pub open spec fn applied(self, field: Seq<char>) -> Seq<char> {
        match self {
            RenameRule::LowerCase | RenameRule::SnakeCase => field,
            RenameRule::Uppercase | RenameRule::ScreamingSnakeCase => uppercased(field),
            RenameRule::PascalCase => pascal(field),
            RenameRule::CamelCase => decapitalized(pascal(field)),
            RenameRule::KebabCase => dashed(field),
            RenameRule::ScreamingKebabCase => dashed(uppercased(field)),
        }
    }

    /// The rule with the given canonical spelling.
    pub open spec fn spelled(s: Seq<char>) -> Option<RenameRule> {
        if s == "lowercase"@ {
            Some(RenameRule::LowerCase)
        } else if s == "UPPERCASE"@ {
            Some(RenameRule::Uppercase)
        } else if s == "PascalCase"@ {
            Some(RenameRule::PascalCase)
        } else if s == "camelCase"@ {
            Some(RenameRule::CamelCase)
        } else if s == "snake_case"@ {
            Some(RenameRule::SnakeCase)
        } else if s == "SCREAMING_SNAKE_CASE"@ {
            Some(RenameRule::ScreamingSnakeCase)
        } else if s == "kebab-case"@ {
            Some(RenameRule::KebabCase)
        } else if s == "SCREAMING-KEBAB-CASE"@ {
            Some(RenameRule::ScreamingKebabCase)
        } else {
            None
        }
    }

    /// The given field name, renamed according to the rule.
    pub fn apply_to_field(self, field: String) -> (r: String)
        ensures
            r@ == self.applied(field@),
    {
        match self {
            RenameRule::LowerCase | RenameRule::SnakeCase => field,
            RenameRule::Uppercase | RenameRule::ScreamingSnakeCase => to_uppercase(field.as_str()),
            RenameRule::PascalCase => to_pascal(field.as_str()),
            RenameRule::CamelCase => {
                let name = to_pascal(field.as_str());
                decapitalize(name.as_str())
            },
            RenameRule::KebabCase => to_dashed(field.as_str()),
            RenameRule::ScreamingKebabCase => {
                let name = to_uppercase(field.as_str());
                to_dashed(name.as_str())
            },
        }
    }

    /// The rule with the given canonical spelling; any other text is an
    /// unknown rule.
    pub fn from_name(s: &str) -> (r: Result<RenameRule, Error>)
        ensures
            match r {
                Ok(rule) => RenameRule::spelled(s@) == Some(rule),
                Err(e) => RenameRule::spelled(s@) is None && e.kind == Failure::UnknownRule,
            },
    {
        if same_text(s, "lowercase") {
            Ok(RenameRule::LowerCase)
        } else if same_text(s, "UPPERCASE") {
            Ok(RenameRule::Uppercase)
        } else if same_text(s, "PascalCase") {
            Ok(RenameRule::PascalCase)
        } else if same_text(s, "camelCase") {
            Ok(RenameRule::CamelCase)
        } else if same_text(s, "snake_case") {
            Ok(RenameRule::SnakeCase)
        } else if same_text(s, "SCREAMING_SNAKE_CASE") {
            Ok(RenameRule::ScreamingSnakeCase)
        } else if same_text(s, "kebab-case") {
            Ok(RenameRule::KebabCase)
        } else if same_text(s, "SCREAMING-KEBAB-CASE") {
            Ok(RenameRule::ScreamingKebabCase)
        } else {
            Err(Error::about(Failure::UnknownRule, "unknown `rename_all` rule: ", s, ""))
        }
    }
}

/// The name with every ASCII letter in upper case.
pub fn to_uppercase(s: &str) -> (r: String)
    ensures
        r@ == uppercased(s@),
{
    let mut out = String::new();
    let n = s.unicode_len();
    let mut i: usize = 0;
    while i < n
        invariant
            n == s@.len(),
            i <= n,
            out@ == uppercased(s@).subrange(0, i as int),
        decreases n - i,
    {
        let c = s.get_char(i);
        out.push(c.to_ascii_uppercase());
        assert(out@ =~= uppercased(s@).subrange(0, i + 1));
        i += 1;
    }
    assert(out@ =~= uppercased(s@));
    out
}

/// The name with every `_` replaced by `-`.
pub fn to_dashed(s: &str) -> (r: String)
    ensures
        r@ == dashed(s@),
{
    let mut out = String::new();
    let n = s.unicode_len();
    let mut i: usize = 0;
    while i < n
        invariant
            n == s@.len(),
            i <= n,
            out@ == dashed(s@).subrange(0, i as int),
        decreases n - i,
    {
        let c = s.get_char(i);
        if c == '_' {
            out.push('-');
        } else {
            out.push(c);
        }
        assert(out@ =~= dashed(s@).subrange(0, i + 1));
        i += 1;
    }
    assert(out@ =~= dashed(s@));
    out
}

/// The name in `PascalCase`.
pub fn to_pascal(s: &str) -> (r: String)
    ensures
        r@ == pascal(s@),
{
    let mut out = String::new();
    let mut capitalize = true;
    let n = s.unicode_len();
    let mut i: usize = 0;
    while i < n
        invariant
            n == s@.len(),
            i <= n,
            out@ == pascal_prefix(s@, i as nat),
            capitalize == (i == 0 || s@[i - 1] == '_'),
        decreases n - i,
    {
        let c = s.get_char(i);
        if c == '_' {
            capitalize = true;
        } else if capitalize {
            out.push(c.to_ascii_uppercase());
            capitalize = false;
        } else {
            out.push(c);
        }
        i += 1;
    }
    out
}

/// The name with its first character in lower case.
pub fn decapitalize(s: &str) -> (r: String)
    ensures
        r@ == decapitalized(s@),
{
    let mut out = String::new();
    let n = s.unicode_len();
    let mut i: usize = 0;
    while i < n
        invariant
            n == s@.len(),
            i <= n,
            out@ == decapitalized(s@).subrange(0, i as int),
        decreases n - i,
    {
        let c = s.get_char(i);
        if i == 0 {
            out.push(c.to_ascii_lowercase());
        } else {
            out.push(c);
        }
        assert(out@ =~= decapitalized(s@).subrange(0, i + 1));
        i += 1;
    }
    assert(out@ =~= decapitalized(s@));
    out
}

/// In upper case, `SCREAMING_SNAKE_CASE` and `UPPERCASE` agree, and so do
/// `snake_case` and `lowercase`: a field name is already in snake case.
pub proof fn lemma_snake_rules_agree(field: Seq<char>)
    ensures
        RenameRule::ScreamingSnakeCase.applied(field) == RenameRule::Uppercase.applied(field),
        RenameRule::SnakeCase.applied(field) == field,
        RenameRule::LowerCase.applied(field) == field,
        RenameRule::ScreamingKebabCase.applied(field) == dashed(
            RenameRule::ScreamingSnakeCase.applied(field),
        ),
        RenameRule::KebabCase.applied(field) == dashed(RenameRule::SnakeCase.applied(field)),
        RenameRule::CamelCase.applied(field) == decapitalized(
            RenameRule::PascalCase.applied(field),
        ),
{
}

/// No rule lengthens a name, and only the `PascalCase` family can shorten
/// it: by the underscores it drops.
pub proof fn lemma_applied_length(rule: RenameRule, field: Seq<char>)
    ensures
        rule.applied(field).len() <= field.len(),
        !(rule is PascalCase || rule is CamelCase) ==> rule.applied(field).len() == field.len(),
{
    lemma_pascal_prefix_length(field, field.len());
}

/// The `PascalCase` form of a prefix is no longer than the prefix.
pub proof fn lemma_pascal_prefix_length(s: Seq<char>, n: nat)
    requires
        n <= s.len(),
    ensures
        pascal_prefix(s, n).len() <= n,
    decreases n,
{
    if n > 0 {
        lemma_pascal_prefix_length(s, (n - 1) as nat);
    }
}

} // verus!
