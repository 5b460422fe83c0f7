//! The `validate` attribute: the rules that an author declares on a field.

use vstd::prelude::*;
use crate::account::Pubkey;
use crate::decl::Meta;
use crate::error::RuleKind;
use crate::decl::MetaValue;
use crate::text::decimal_value;
use crate::text::names_length;
use crate::text::parse_length;
use crate::text::text_is;
use crate::validate::ValidationRule;

verus! {

/// The rules declared in one `validate` attribute.
#[derive(Debug, Clone, PartialEq, Eq)]
pub struct ValidationAttr {
    /// `non_empty` was declared.
    pub non_empty: bool,
    /// `is_signer` was declared.
    pub is_signer: bool,
    /// `is_executable` was declared.
    pub is_executable: bool,
    /// The length declared by `len = ..`, if any.
    pub len: Option<usize>,
    /// The text of the constant expression declared by `id = ..`, if any.
    pub id: Option<String>,
}

/// The rules declared in one `validate` attribute, as a mathematical value.
pub struct AttrView {
    pub non_empty: bool,
    pub is_signer: bool,
    pub is_executable: bool,
    pub len: Option<nat>,
    pub id: Option<Seq<char>>,
}

impl View for ValidationAttr {
    type V = AttrView;

    open spec fn view(&self) -> AttrView {
        AttrView {
            non_empty: self.non_empty,
            is_signer: self.is_signer,
            is_executable: self.is_executable,
            len: match self.len {
                Some(n) => Some(n as nat),
                None => None,
            },
            id: match self.id {
                Some(text) => Some(text@),
                None => None,
            },
        }
    }
}

/// Whether `arg` is the bare word `name`.
pub open spec fn is_flag(arg: Meta, name: Seq<char>) -> bool {
    arg matches Meta::Path(path) && path@ == name
}

/// Whether the bare word `name` is among `args`.
pub open spec fn declares(args: Seq<Meta>, name: Seq<char>) -> bool {
    exists|i: int| 0 <= i < args.len() && is_flag(#[trigger] args[i], name)
}

/// The digits of `arg` where it is `len = ..` with an integer literal.
pub open spec fn len_digits(arg: Meta) -> Option<Seq<char>> {
    match arg {
        Meta::NameValue(name, MetaValue::Int(digits)) => if name@ == "len"@ {
            Some(digits@)
        } else {
            None
        },
        _ => None,
    }
}

/// The text of the value of `arg` where it is `id = ..`.
pub open spec fn id_text(arg: Meta) -> Option<Seq<char>> {
    match arg {
        Meta::NameValue(name, value) => if name@ == "id"@ {
            Some(value.text())
        } else {
            None
        },
        _ => None,
    }
}

/// The digits of the last `len = ..` with an integer literal among `args`.
pub open spec fn declared_len(args: Seq<Meta>) -> Option<Seq<char>>
    decreases args.len(),
{
    if args.len() == 0 {
        None
    } else {
        match len_digits(args.last()) {
            Some(digits) => Some(digits),
            None => declared_len(args.drop_last()),
        }
    }
}

/// The text of the value of the last `id = ..` among `args`.
pub open spec fn declared_id(args: Seq<Meta>) -> Option<Seq<char>>
    decreases args.len(),
{
    if args.len() == 0 {
        None
    } else {
        match id_text(args.last()) {
            Some(text) => Some(text),
            None => declared_id(args.drop_last()),
        }
    }
}

/// Whether `arg` is `len = ..` with an integer literal that names no length.
pub open spec fn bad_length(arg: Meta) -> bool {
    len_digits(arg) matches Some(digits) && !names_length(digits)
}

/// Whether some `len = ..` among `args` names no length.
pub open spec fn has_bad_length(args: Seq<Meta>) -> bool {
    exists|i: int| 0 <= i < args.len() && bad_length(#[trigger] args[i])
}

/// What `args` declare. A bare word declares its rule however often it
/// occurs; of several `len` or `id` arguments the last one counts. A `len`
/// whose value is no integer literal declares nothing, and so does any
/// argument that is none of the five.
pub open spec fn declared_attr(args: Seq<Meta>) -> AttrView {
    AttrView {
        non_empty: declares(args, "non_empty"@),
        is_signer: declares(args, "is_signer"@),
        is_executable: declares(args, "is_executable"@),
        len: match declared_len(args) {
            Some(digits) => Some(decimal_value(digits)),
            None => None,
        },
        id: declared_id(args),
    }
}

/// The rules that `attr` declares, in the order in which they are checked:
/// non-empty, signer, executable, exact length, identity. `key` is the key
/// that the `id` expression stands for.
pub open spec fn rules_of(attr: AttrView, key: Option<Pubkey>) -> Seq<ValidationRule> {
    (if attr.non_empty {
        seq![ValidationRule::NonEmpty]
    } else {
        seq![]
    }) + (if attr.is_signer {
        seq![ValidationRule::IsSigner]
    } else {
        seq![]
    }) + (if attr.is_executable {
        seq![ValidationRule::IsExecutable]
    } else {
        seq![]
    }) + (match attr.len {
        Some(n) => seq![ValidationRule::ExactLength(n as usize)],
        None => seq![],
    }) + (match key {
        Some(k) => seq![ValidationRule::IdentityEquals(k)],
        None => seq![],
    })
}

/// The kinds of the rules that `attr` declares, in the order in which they
/// are checked.
pub open spec fn kinds_of(attr: AttrView) -> Seq<RuleKind> {
    (if attr.non_empty {
        seq![RuleKind::NonEmpty]
    } else {
        seq![]
    }) + (if attr.is_signer {
        seq![RuleKind::IsSigner]
    } else {
        seq![]
    }) + (if attr.is_executable {
        seq![RuleKind::IsExecutable]
    } else {
        seq![]
    }) + (if attr.len is Some {
        seq![RuleKind::ExactLength]
    } else {
        seq![]
    }) + (if attr.id is Some {
        seq![RuleKind::IdentityEquals]
    } else {
        seq![]
    })
}

/// The rules that an attribute declares are of the kinds that it declares,
/// one for one and in the same order, where its `id` has a key.
pub proof fn lemma_rules_have_their_kinds(attr: AttrView, key: Pubkey)
    requires
        attr.id is Some,
    ensures
        rules_of(attr, Some(key)).len() == kinds_of(attr).len(),
        forall|i: int|
            0 <= i < kinds_of(attr).len() ==> (#[trigger] rules_of(attr, Some(key))[i]).kind()
                == kinds_of(attr)[i],
{
    let a: Seq<ValidationRule> = if attr.non_empty {
        seq![ValidationRule::NonEmpty]
    } else {
        seq![]
    };
    let b: Seq<ValidationRule> = if attr.is_signer {
        seq![ValidationRule::IsSigner]
    } else {
        seq![]
    };
    let c: Seq<ValidationRule> = if attr.is_executable {
        seq![ValidationRule::IsExecutable]
    } else {
        seq![]
    };
    let d: Seq<ValidationRule> = match attr.len {
        Some(n) => seq![ValidationRule::ExactLength(n as usize)],
        None => seq![],
    };
    let e: Seq<ValidationRule> = seq![ValidationRule::IdentityEquals(key)];
    assert(rules_of(attr, Some(key)) == a + b + c + d + e);
}

impl ValidationAttr {
    /// The kinds of the rules that the attribute declares, in the order in
    /// which they are checked.
    pub fn kinds(&self) -> (r: Vec<RuleKind>)
        ensures
            r@ == kinds_of(self@),
    {
        let mut out: Vec<RuleKind> = Vec::new();
        if self.non_empty {
            out.push(RuleKind::NonEmpty);
        }
        if self.is_signer {
            out.push(RuleKind::IsSigner);
        }
        if self.is_executable {
            out.push(RuleKind::IsExecutable);
        }
        if self.len.is_some() {
            out.push(RuleKind::ExactLength);
        }
        if self.id.is_some() {
            out.push(RuleKind::IdentityEquals);
        }
        assert(out@ =~= kinds_of(self@));
        out
    }

    /// Reads the arguments of a `validate` attribute. `None` exactly when some
    /// `len = ..` has an integer literal that names no length; else what the
    /// arguments declare.
    pub fn parse(args: &[Meta]) -> (r: Option<ValidationAttr>)
        ensures
            has_bad_length(args@) ==> r is None,
            !has_bad_length(args@) ==> (r matches Some(attr) && attr@ == declared_attr(args@)),
    {
        let mut non_empty = false;
        let mut is_signer = false;
        let mut is_executable = false;
        let mut len: Option<usize> = None;
        let mut id: Option<String> = None;
        let mut i: usize = 0;
        proof {
            reveal_strlit("len");
            reveal_strlit("id");
        }
        while i < args.len()
            invariant
                i <= args@.len(),
                "len"@.len() == 3,
                "id"@.len() == 2,
                forall|j: int| 0 <= j < i ==> !bad_length(#[trigger] args@[j]),
                non_empty == declares(args@.take(i as int), "non_empty"@),
                is_signer == declares(args@.take(i as int), "is_signer"@),
                is_executable == declares(args@.take(i as int), "is_executable"@),
                match declared_len(args@.take(i as int)) {
                    Some(digits) => names_length(digits) && len == Some(
                        decimal_value(digits) as usize,
                    ),
                    None => len is None,
                },
                match declared_id(args@.take(i as int)) {
                    Some(text) => id matches Some(s) && s@ == text,
                    None => id is None,
                },
            decreases args@.len() - i,
        {
            let ghost before = args@.take(i as int);
            let ghost after = args@.take(i + 1);
            proof {
                assert(after.drop_last() =~= before);
                assert(after.last() == args@[i as int]);
                lemma_declares_step(args@, i as int, "non_empty"@);
                lemma_declares_step(args@, i as int, "is_signer"@);
                lemma_declares_step(args@, i as int, "is_executable"@);
            }
            match &args[i] {
                Meta::Path(path) => {
                    if text_is(path.as_str(), "non_empty") {
                        non_empty = true;
                    }
                    if text_is(path.as_str(), "is_signer") {
                        is_signer = true;
                    }
                    if text_is(path.as_str(), "is_executable") {
                        is_executable = true;
                    }
                },
                Meta::NameValue(name, value) => {
                    if text_is(name.as_str(), "len") {
                        match value {
                            MetaValue::Int(digits) => {
                                match parse_length(digits.as_str()) {
                                    Some(n) => {
                                        len = Some(n);
                                    },
                                    None => {
                                        assert(bad_length(args@[i as int]));
                                        return None;
                                    },
                                }
                            },
                            MetaValue::Expr(_) => {},
                        }
                    } else if text_is(name.as_str(), "id") {
                        match value {
                            MetaValue::Int(digits) => {
                                id = Some(digits.clone());
                            },
                            MetaValue::Expr(text) => {
                                id = Some(text.clone());
                            },
                        }
                    }
                },
                Meta::List(_) => {},
            }
            i += 1;
        }
        assert(args@.take(i as int) =~= args@);
        Some(ValidationAttr { non_empty, is_signer, is_executable, len, id })
    }

    /// The rules that the attribute declares, in the order in which they are
    /// checked, with `key` as the key that the `id` expression stands for.
    pub fn rules(&self, key: Option<Pubkey>) -> (r: Vec<ValidationRule>)
        ensures
            r@ == rules_of(self@, key),
    {
        let mut out: Vec<ValidationRule> = Vec::new();
        if self.non_empty {
            out.push(ValidationRule::NonEmpty);
        }
        if self.is_signer {
            out.push(ValidationRule::IsSigner);
        }
        if self.is_executable {
            out.push(ValidationRule::IsExecutable);
        }
        match self.len {
            Some(n) => {
                out.push(ValidationRule::ExactLength(n));
            },
            None => {},
        }
        match key {
            Some(k) => {
                out.push(ValidationRule::IdentityEquals(k));
            },
            None => {},
        }
        assert(out@ =~= rules_of(self@, key));
        out
    }
}

/// A bare word is among the first `i + 1` arguments exactly when it is among
/// the first `i` or is argument `i`.
pub proof fn lemma_declares_step(args: Seq<Meta>, i: int, name: Seq<char>)
    requires
        0 <= i < args.len(),
    ensures
        declares(args.take(i + 1), name) == (declares(args.take(i), name) || is_flag(
            args[i],
            name,
        )),
{
    let before = args.take(i);
    let after = args.take(i + 1);
    if declares(before, name) {
        let k = choose|k: int| 0 <= k < before.len() && is_flag(#[trigger] before[k], name);
        assert(after[k] == before[k]);
    }
    if is_flag(args[i], name) {
        assert(after[i] == args[i]);
    }
    if declares(after, name) {
        let k = choose|k: int| 0 <= k < after.len() && is_flag(#[trigger] after[k], name);
        if k < i {
            assert(before[k] == after[k]);
        } else {
            assert(after[k] == args[i]);
        }
    }
}

} // verus!
