//! The registry of token kinds and their permanent prefixes.

use vstd::prelude::*;
use vstd::std_specs::iter::IteratorSpec;
use vstd::utf8::is_ascii_chars;

verus! {

/// Every kind of secure token that can be issued. A new kind must come with a
/// prefix of its own.
///
/// The prefix of an existing kind must never change: doing so revokes every
/// token of that kind that was ever handed out.
#[derive(Debug, Copy, Clone, PartialEq, Eq, Hash, Structural)]
pub enum SecureTokenKind {
    Api,
}

impl SecureTokenKind {
    /// All kinds, in the order in which a plaintext is matched against them.
    pub const VARIANTS: [SecureTokenKind; 1] = [SecureTokenKind::Api];

    /// The characters that open every plaintext of this kind.
    pub open spec fn spec_prefix(self) -> Seq<char> {
        match self {
            SecureTokenKind::Api => seq!['c', 'i', 'o'],
        }
    }

    /// The prefix that opens every plaintext of this kind.
    pub fn prefix(&self) -> (prefix: &'static str)
        ensures
            prefix@ == self.spec_prefix(),
    {
        match self {
            SecureTokenKind::Api => {
                proof {
                    reveal_strlit("cio");
                }
                let p = "cio";
                assert(p@ =~= seq!['c', 'i', 'o']);
                p
            },
        }
    }

    /// Whether `text` opens with the prefix of this kind.
    pub open spec fn opens(self, text: Seq<char>) -> bool {
        self.spec_prefix().is_prefix_of(text)
    }

    /// The kind whose prefix opens `token`, if there is one. No two kinds
    /// open the same text (`lemma_kind_is_unique`), so the choice is forced.
    pub open spec fn spec_from_token(token: Seq<char>) -> Option<SecureTokenKind> {
        if exists|kind: SecureTokenKind| kind.opens(token) {
            Some(choose|kind: SecureTokenKind| kind.opens(token))
        } else {
            None
        }
    }

    /// The kind of the plaintext `token`: the one kind whose prefix opens it,
    /// or nothing where no kind's prefix does.
    pub fn from_token(token: &str) -> (found: Option<SecureTokenKind>)
        ensures
            found == Self::spec_from_token(token@),
            found matches Some(kind) ==> kind.opens(token@),
            found is None ==> forall|kind: SecureTokenKind| !kind.opens(token@),
    {
        let variants = Self::VARIANTS;
        let mut at: usize = 0;
        while at < variants.len()
            invariant
                variants@ == Self::VARIANTS@,
                at <= variants@.len(),
                forall|i: int| 0 <= i < at ==> !(#[trigger] variants@[i]).opens(token@),
            decreases variants@.len() - at,
        {
            let kind = variants[at];
            if starts_with(token, kind.prefix()) {
                proof {
                    lemma_kind_is_unique(
                        token@,
                        kind,
                        choose|other: SecureTokenKind| other.opens(token@),
                    );
                }
                return Some(kind);
            }
            at = at + 1;
        }
        proof {
            assert forall|kind: SecureTokenKind| !kind.opens(token@) by {
                lemma_variants_are_complete(kind);
            }
        }
        None
    }
}

/// The list of variants leaves no kind out.
pub proof fn lemma_variants_are_complete(kind: SecureTokenKind)
    ensures
        exists|i: int|
            0 <= i < SecureTokenKind::VARIANTS@.len() && SecureTokenKind::VARIANTS@[i] == kind,
{
    match kind {
        SecureTokenKind::Api => {
            assert(SecureTokenKind::VARIANTS@[0] == kind);
        },
    }
}

/// No kind's prefix opens the prefix of another kind, so two kinds can never
/// be confused.
pub proof fn lemma_prefixes_do_not_collide(a: SecureTokenKind, b: SecureTokenKind)
    ensures
        a != b ==> !a.spec_prefix().is_prefix_of(b.spec_prefix()),
{
}

/// Every prefix is written in ASCII.
pub proof fn lemma_prefix_is_ascii(kind: SecureTokenKind)
    ensures
        is_ascii_chars(kind.spec_prefix()),
{
}

/// A text is opened by the prefix of at most one kind.
pub proof fn lemma_kind_is_unique(text: Seq<char>, a: SecureTokenKind, b: SecureTokenKind)
    requires
        a.opens(text),
        b.opens(text),
    ensures
        a == b,
{
    let p = a.spec_prefix();
    let q = b.spec_prefix();
    if p.len() <= q.len() {
        assert(p =~= q.subrange(0, p.len() as int));
        lemma_prefixes_do_not_collide(a, b);
    } else {
        assert(q =~= p.subrange(0, q.len() as int));
        lemma_prefixes_do_not_collide(b, a);
    }
}

/// The kind of a text that a kind's prefix opens is that kind.
pub proof fn lemma_from_token_of_opened(text: Seq<char>, kind: SecureTokenKind)
    requires
        kind.opens(text),
    ensures
        SecureTokenKind::spec_from_token(text) == Some(kind),
{
    lemma_kind_is_unique(text, kind, choose|other: SecureTokenKind| other.opens(text));
}

/// Whether `text` opens with `prefix`, character for character.
pub fn starts_with(text: &str, prefix: &str) -> (found: bool)
    ensures
        found == prefix@.is_prefix_of(text@),
{
    broadcast use vstd::string::group_string_axioms;
    let mut rest = text.chars();
    let mut wanted = prefix.chars();
    let ghost mut seen: int = 0;
    loop
        invariant
            0 <= seen <= prefix@.len(),
            seen <= text@.len(),
            rest.obeys_prophetic_iter_laws(),
            wanted.obeys_prophetic_iter_laws(),
            rest.remaining() == text@.skip(seen),
            wanted.remaining() == prefix@.skip(seen),
            prefix@.take(seen) == text@.take(seen),
        decreases prefix@.len() - seen,
    {
        match wanted.next() {
            None => {
                assert(prefix@.take(seen) == prefix@);
                return true;
            },
            Some(expected) => {
                match rest.next() {
                    None => {
                        return false;
                    },
                    Some(actual) => {
                        if expected != actual {
                            assert(prefix@[seen] != text@[seen]);
                            return false;
                        }
                        proof {
                            assert(prefix@.take(seen + 1) == prefix@.take(seen).push(
                                prefix@[seen],
                            ));
                            assert(text@.take(seen + 1) == text@.take(seen).push(text@[seen]));
                            assert(prefix@.skip(seen).drop_first() == prefix@.skip(seen + 1));
                            assert(text@.skip(seen).drop_first() == text@.skip(seen + 1));
                            seen = seen + 1;
                        }
                    },
                }
            },
        }
    }
}

} // verus!
