//! A validated two-part namespaced key, `key:value`, parsed from and
//! rendered to a single string. The key and value parts never contain the
//! `:` separator; a stored full string contains it exactly once.

use vstd::prelude::*;
use vstd::string::StrSliceExecFns;
use crate::text::{count_char, first_idx};
use crate::text::{lemma_count_concat, lemma_count_zero, lemma_first_idx, lemma_first_idx_unique};
use crate::text::{concat3, count_char_exec, find_char, str_eq};

verus! {

/// The storage of an identifier: a single full `key:value` string, or the
/// two parts kept apart.
#[derive(Clone, Debug)]
pub enum IdentifierInner {
    Fulled(String),
    Partial(String, String),
}

/// The abstract value of an identifier: its two parts, regardless of how
/// they are stored.
pub ghost struct IdView {
    pub key: Seq<char>,
    pub value: Seq<char>,
}

impl IdView {
    /// The rendered `key:value` form.
    pub open spec fn fulled(self) -> Seq<char> {
        self.key + seq![':'] + self.value
    }

    /// Neither part contains the separator.
    pub open spec fn parts_valid(self) -> bool {
        count_char(self.key, ':') == 0 && count_char(self.value, ':') == 0
    }
}

#[derive(Clone, Copy, Debug, PartialEq, Eq, Structural)]
pub enum IdentifierError {
    ValueContainsDoubleDot,
    KeyContainsDoubleDot,
    FulledContainsMoreThanOneDoubleDot,
    FulledContainsNoDoubleDot,
}

/// A validated namespaced identifier. Two identifiers are equal exactly
/// when their (key, value) pairs are equal, whatever the storage form.
#[derive(Debug)]
pub struct Identifier(IdentifierInner);

impl Clone for Identifier {
    /// A clone carries the same value in the same storage form.
    fn clone(&self) -> (r: Self)
        ensures
            r@ == self@,
            r.stored_fulled() == self.stored_fulled(),
    {
        proof {
            use_type_invariant(self);
        }
        match &self.0 {
            IdentifierInner::Fulled(s) => Identifier(IdentifierInner::Fulled(s.clone())),
            IdentifierInner::Partial(k, v) => Identifier(
                IdentifierInner::Partial(k.clone(), v.clone()),
            ),
        }
    }
}

impl View for Identifier {
    type V = IdView;

    closed spec fn view(&self) -> IdView {
        match self.0 {
            IdentifierInner::Fulled(s) => IdView {
                key: s@.subrange(0, first_idx(s@, ':')),
                value: s@.subrange(first_idx(s@, ':') + 1, s@.len() as int),
            },
            IdentifierInner::Partial(k, v) => IdView { key: k@, value: v@ },
        }
    }
}

impl Identifier {
    #[verifier::type_invariant]
    spec fn inv(self) -> bool {
        match self.0 {
            IdentifierInner::Fulled(s) => count_char(s@, ':') == 1,
            IdentifierInner::Partial(k, v) => count_char(k@, ':') == 0 && count_char(
                v@,
                ':',
            ) == 0,
        }
    }

    /// The parts of every identifier are free of the separator. The body
    /// does nothing at run time; the call makes the fact available.
    pub fn note_valid(&self)
        ensures
            self@.parts_valid(),
    {
        proof {
            use_type_invariant(self);
            match &self.0 {
                IdentifierInner::Fulled(s) => {
                    lemma_fulled_split(s@);
                },
                IdentifierInner::Partial(k, v) => {},
            }
        }
    }

    /// Whether the identifier is stored as one full string.
    pub closed spec fn stored_fulled(&self) -> bool {
        self.0 is Fulled
    }

    /// The storage, surrendered.
    pub fn into_inner(self) -> (r: IdentifierInner)
        ensures
            r matches IdentifierInner::Fulled(s) ==> self.stored_fulled() && s@ == self@.fulled(),
            r matches IdentifierInner::Partial(k, v) ==> !self.stored_fulled() && k@ == self@.key
                && v@ == self@.value,
    {
        proof {
            use_type_invariant(&self);
            if self.0 is Fulled {
                lemma_fulled_split(self.0->Fulled_0@);
            }
        }
        self.0
    }

    /// Validates a storage value into an identifier.
    pub fn from_inner(inner: IdentifierInner) -> (r: Result<Self, IdentifierError>)
        ensures
            match inner {
                IdentifierInner::Fulled(s) => {
                    &&& count_char(s@, ':') == 1 ==> (r matches Ok(id) && id@.fulled() == s@
                        && id.stored_fulled())
                    &&& count_char(s@, ':') == 0 ==> r == Err::<Self, _>(
                        IdentifierError::FulledContainsNoDoubleDot,
                    )
                    &&& count_char(s@, ':') >= 2 ==> r == Err::<Self, _>(
                        IdentifierError::FulledContainsMoreThanOneDoubleDot,
                    )
                },
                IdentifierInner::Partial(k, v) => {
                    &&& (count_char(k@, ':') == 0 && count_char(v@, ':') == 0) ==> (r matches Ok(id)
                        && id@ == (IdView { key: k@, value: v@ }) && !id.stored_fulled())
                    &&& count_char(k@, ':') > 0 ==> r == Err::<Self, _>(
                        IdentifierError::KeyContainsDoubleDot,
                    )
                    &&& (count_char(k@, ':') == 0 && count_char(v@, ':') > 0) ==> r == Err::<
                        Self,
                        _,
                    >(IdentifierError::ValueContainsDoubleDot)
                },
            },
    {
        match inner {
            IdentifierInner::Fulled(fulled) => Self::new_fulled(fulled.as_str()),
            IdentifierInner::Partial(key, value) => Self::new_partial(key.as_str(), value.as_str()),
        }
    }

    /// Accepts `full` exactly when it contains exactly one `:`.
    pub fn new_fulled(full: &str) -> (r: Result<Self, IdentifierError>)
        ensures
            count_char(full@, ':') == 1 ==> (r matches Ok(id) && id@.fulled() == full@
                && id.stored_fulled()),
            count_char(full@, ':') == 0 ==> r == Err::<Self, _>(
                IdentifierError::FulledContainsNoDoubleDot,
            ),
            count_char(full@, ':') >= 2 ==> r == Err::<Self, _>(
                IdentifierError::FulledContainsMoreThanOneDoubleDot,
            ),
    {
        let n = count_char_exec(full, ':');
        if n == 0 {
            Err(IdentifierError::FulledContainsNoDoubleDot)
        } else if n >= 2 {
            Err(IdentifierError::FulledContainsMoreThanOneDoubleDot)
        } else {
            let id = Identifier(IdentifierInner::Fulled(full.to_owned()));
            proof {
                lemma_fulled_split(full@);
            }
            Ok(id)
        }
    }

    /// Accepts the two parts exactly when neither contains `:`.
    pub fn new_partial(key: &str, value: &str) -> (r: Result<Self, IdentifierError>)
        ensures
            (count_char(key@, ':') == 0 && count_char(value@, ':') == 0) ==> (r matches Ok(id)
                && id@ == (IdView { key: key@, value: value@ }) && !id.stored_fulled()),
            count_char(key@, ':') > 0 ==> r == Err::<Self, _>(IdentifierError::KeyContainsDoubleDot),
            (count_char(key@, ':') == 0 && count_char(value@, ':') > 0) ==> r == Err::<Self, _>(
                IdentifierError::ValueContainsDoubleDot,
            ),
    {
        let nk = count_char_exec(key, ':');
        if nk > 0 {
            Err(IdentifierError::KeyContainsDoubleDot)
        } else {
            let nv = count_char_exec(value, ':');
            if nv > 0 {
                Err(IdentifierError::ValueContainsDoubleDot)
            } else {
                Ok(Identifier(IdentifierInner::Partial(key.to_owned(), value.to_owned())))
            }
        }
    }

    /// Treats `value` as a full identifier when it contains exactly one `:`;
    /// otherwise pairs it, as the value half, with `default_key`.
    pub fn new_with_default(value: &str, default_key: &str) -> (r: Result<Self, IdentifierError>)
        ensures
            count_char(value@, ':') == 1 ==> (r matches Ok(id) && id@.fulled() == value@
                && id.stored_fulled()),
            count_char(value@, ':') >= 2 ==> r == Err::<Self, _>(
                IdentifierError::FulledContainsMoreThanOneDoubleDot,
            ),
            (count_char(value@, ':') == 0 && count_char(default_key@, ':') == 0) ==> (r matches Ok(
                id,
            ) && id@ == (IdView { key: default_key@, value: value@ }) && !id.stored_fulled()),
            (count_char(value@, ':') == 0 && count_char(default_key@, ':') > 0) ==> r == Err::<
                Self,
                _,
            >(IdentifierError::KeyContainsDoubleDot),
    {
        let n = count_char_exec(value, ':');
        if n >= 2 {
            Err(IdentifierError::FulledContainsMoreThanOneDoubleDot)
        } else if n == 1 {
            let id = Identifier(IdentifierInner::Fulled(value.to_owned()));
            proof {
                lemma_fulled_split(value@);
            }
            Ok(id)
        } else {
            let nk = count_char_exec(default_key, ':');
            if nk > 0 {
                Err(IdentifierError::KeyContainsDoubleDot)
            } else {
                Ok(Identifier(IdentifierInner::Partial(default_key.to_owned(), value.to_owned())))
            }
        }
    }

    /// The rendered `key:value` string.
    pub fn get_fulled(&self) -> (r: String)
        ensures
            r@ == self@.fulled(),
    {
        proof {
            use_type_invariant(self);
        }
        match &self.0 {
            IdentifierInner::Fulled(fulled) => {
                proof {
                    lemma_fulled_split(fulled@);
                }
                fulled.clone()
            },
            IdentifierInner::Partial(key, value) => {
                let r = concat3(key.as_str(), ":", value.as_str());
                proof {
                    reveal_strlit(":");
                    assert(":"@ =~= seq![':']);
                }
                r
            },
        }
    }

    /// The two parts, borrowed.
    pub fn get_partial(&self) -> (r: (&str, &str))
        ensures
            r.0@ == self@.key,
            r.1@ == self@.value,
    {
        proof {
            use_type_invariant(self);
        }
        match &self.0 {
            IdentifierInner::Fulled(fulled) => {
                let s = fulled.as_str();
                let idx = find_char(s, ':');
                let len = s.unicode_len();
                (s.substring_char(0, idx), s.substring_char(idx + 1, len))
            },
            IdentifierInner::Partial(key, value) => (key.as_str(), value.as_str()),
        }
    }

    /// The rendered `key:value` string, consuming the identifier.
    pub fn into_fulled(self) -> (r: String)
        ensures
            r@ == self@.fulled(),
    {
        self.get_fulled()
    }

    /// The two parts, owned, consuming the identifier.
    pub fn into_partial(self) -> (r: (String, String))
        ensures
            r.0@ == self@.key,
            r.1@ == self@.value,
    {
        let (k, v) = self.get_partial();
        (k.to_owned(), v.to_owned())
    }

    /// Whether the identifier is stored as one full string.
    pub fn is_fulled(&self) -> (r: bool)
        ensures
            r == self.stored_fulled(),
    {
        match &self.0 {
            IdentifierInner::Fulled(_) => true,
            IdentifierInner::Partial(..) => false,
        }
    }

    /// Whether the identifier is stored as a pair of parts.
    pub fn is_partial(&self) -> (r: bool)
        ensures
            r == !self.stored_fulled(),
    {
        !self.is_fulled()
    }
}

/// For a string with exactly one `:`, its split at the separator: the two
/// parts are separator-free and reassemble to the whole.
pub proof fn lemma_fulled_split(s: Seq<char>)
    requires
        count_char(s, ':') == 1,
    ensures
        ({
            let i = first_idx(s, ':');
            let k = s.subrange(0, i);
            let v = s.subrange(i + 1, s.len() as int);
            &&& 0 <= i < s.len()
            &&& count_char(k, ':') == 0
            &&& count_char(v, ':') == 0
            &&& k + seq![':'] + v == s
        }),
{
    lemma_first_idx(s, ':');
    let i = first_idx(s, ':');
    let k = s.subrange(0, i);
    let v = s.subrange(i + 1, s.len() as int);
    lemma_count_zero(k, ':');
    assert(k + seq![':'] + v =~= s);
    lemma_count_concat(k + seq![':'], v, ':');
    lemma_count_concat(k, seq![':'], ':');
    assert(count_char(seq![':'], ':') == 1) by {
        reveal_with_fuel(count_char, 2);
        assert(seq![':'].drop_last() =~= Seq::<char>::empty());
    }
}

/// When the parts are separator-free, the rendered full form has exactly
/// one `:`, standing right after the key part.
pub proof fn lemma_fulled_of_parts(k: Seq<char>, v: Seq<char>)
    requires
        count_char(k, ':') == 0,
        count_char(v, ':') == 0,
    ensures
        count_char(k + seq![':'] + v, ':') == 1,
        first_idx(k + seq![':'] + v, ':') == k.len(),
{
    let s = k + seq![':'] + v;
    lemma_count_concat(k + seq![':'], v, ':');
    lemma_count_concat(k, seq![':'], ':');
    assert(count_char(seq![':'], ':') == 1) by {
        reveal_with_fuel(count_char, 2);
        assert(seq![':'].drop_last() =~= Seq::<char>::empty());
    }
    lemma_count_zero(k, ':');
    assert(s[k.len() as int] == ':');
    assert forall|j: int| 0 <= j < k.len() implies s[j] != ':' by {
        assert(s[j] == k[j]);
    }
    lemma_first_idx_unique(s, ':', k.len() as int);
}

/// A separator-free pair is the only split of its rendered full form.
pub proof fn lemma_fulled_unique(v: IdView, s: Seq<char>)
    requires
        v.parts_valid(),
        v.fulled() == s,
    ensures
        v.key == s.subrange(0, first_idx(s, ':')),
        v.value == s.subrange(first_idx(s, ':') + 1, s.len() as int),
{
    lemma_fulled_of_parts(v.key, v.value);
    assert(v.key =~= s.subrange(0, v.key.len() as int));
    assert(v.value =~= s.subrange(v.key.len() as int + 1, s.len() as int));
}

/// A pair with separator-free parts and its rendered full form stand
/// for the same identifier: the full form carries exactly one separator
/// and splits back into the very same pair. So an identifier built from
/// the parts equals one built from the full string they render to.
pub proof fn lemma_pair_fulled_round(v: IdView)
    requires
        v.parts_valid(),
    ensures
        count_char(v.fulled(), ':') == 1,
        (IdView {
            key: v.fulled().subrange(0, first_idx(v.fulled(), ':')),
            value: v.fulled().subrange(first_idx(v.fulled(), ':') + 1, v.fulled().len() as int),
        }) == v,
{
    lemma_fulled_of_parts(v.key, v.value);
    lemma_fulled_unique(v, v.fulled());
}

impl PartialEq for Identifier {
    /// Pair equality: the storage form does not matter.
    fn eq(&self, other: &Self) -> (r: bool) {
        let (ak, av) = self.get_partial();
        let (bk, bv) = other.get_partial();
        str_eq(ak, bk) && str_eq(av, bv)
    }
}

impl vstd::std_specs::cmp::PartialEqSpecImpl for Identifier {
    open spec fn obeys_eq_spec() -> bool {
        true
    }

    open spec fn eq_spec(&self, other: &Identifier) -> bool {
        self@ == other@
    }
}

} // verus!
