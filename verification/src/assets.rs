//! The asset registry: token classes, token custody, and the minting
//! workflow.
//!
//! A class records the account allowed to mint into it. Tokens get
//! registry-wide sequential identifiers, and each token records its
//! class and its current holder. Custody moves only through
//! [`AssetRegistry::transfer`], which the holder alone may call.

use vstd::prelude::*;
use crate::{AccountId, ClassId, TokenId};

verus! {

/// Why the registry refused an operation.
#[derive(Clone, Copy, PartialEq, Eq, Structural, Debug)]
pub enum AssetError {
    /// No class exists under the given identifier.
    ClassIdNotFound,
    /// No token exists under the given class and token identifiers.
    TokenIdNotFound,
    /// The caller does not hold the token or may not mint into the class.
    NoPermission,
    /// A mint of zero tokens was asked for.
    InvalidQuantity,
    /// Class identifiers are exhausted.
    NoAvailableClassId,
}

/// One registered token: the class it belongs to and its current holder.
#[derive(Clone, Copy, PartialEq, Eq, Structural, Debug)]
pub struct TokenInfo {
    pub class: ClassId,
    pub owner: AccountId,
}

/// The registry of token classes and token custody.
pub struct AssetRegistry {
    class_owners: Vec<AccountId>,
    tokens: Vec<TokenInfo>,
}

/// How many of `tokens` are held by `who`.
pub open spec fn owned_count(tokens: Seq<TokenInfo>, who: AccountId) -> nat
    decreases tokens.len(),
{
    if tokens.len() == 0 {
        0
    } else {
        owned_count(tokens.drop_last(), who) + if tokens.last().owner == who {
            1nat
        } else {
            0nat
        }
    }
}

impl AssetRegistry {
    /// The minting accounts of the classes, in order of class creation.
    pub closed spec fn class_owners_seq(&self) -> Seq<AccountId> {
        self.class_owners@
    }

    /// The registered tokens, in order of minting.
    pub closed spec fn tokens_seq(&self) -> Seq<TokenInfo> {
        self.tokens@
    }

    /// Whether the pair names a registered token.
    pub open spec fn is_asset(&self, class: ClassId, token: TokenId) -> bool {
        (token as int) < self.tokens_seq().len() && self.tokens_seq()[token as int].class == class
    }

    /// The holder of the token, when the pair names one.
    pub open spec fn owner_spec(&self, class: ClassId, token: TokenId) -> Option<AccountId> {
        if self.is_asset(class, token) {
            Some(self.tokens_seq()[token as int].owner)
        } else {
            None
        }
    }

    /// Every token belongs to a class that exists.
    pub open spec fn wf(&self) -> bool {
        forall|i: int|
            0 <= i < self.tokens_seq().len() ==> (#[trigger] self.tokens_seq()[i]).class
                < self.class_owners_seq().len()
    }

    /// An empty registry.
    pub fn new() -> (r: AssetRegistry)
        ensures
            r.wf(),
            r.class_owners_seq() == Seq::<AccountId>::empty(),
            r.tokens_seq() == Seq::<TokenInfo>::empty(),
    {
        AssetRegistry { class_owners: Vec::new(), tokens: Vec::new() }
    }

    /// Creates the next token class, to be minted into by `owner`, and
    /// returns the new class identifier. Fails only when class
    /// identifiers are exhausted, and then changes nothing.
    pub fn create_class(&mut self, owner: AccountId) -> (r: Result<ClassId, AssetError>)
        requires
            old(self).wf(),
        ensures
            final(self).wf(),
            final(self).tokens_seq() == old(self).tokens_seq(),
            r matches Ok(id) ==> {
                &&& id == old(self).class_owners_seq().len()
                &&& final(self).class_owners_seq() == old(self).class_owners_seq().push(owner)
            },
            r is Ok <==> old(self).class_owners_seq().len() < ClassId::MAX,
            r is Err ==> r == Err::<ClassId, AssetError>(AssetError::NoAvailableClassId)
                && final(self).class_owners_seq() == old(self).class_owners_seq(),
    {
        if self.class_owners.len() >= ClassId::MAX as usize {
            return Err(AssetError::NoAvailableClassId);
        }
        let id = self.class_owners.len() as u32;
        self.class_owners.push(owner);
        proof {
            assert forall|i: int|
                0 <= i < self.tokens_seq().len() implies (#[trigger] self.tokens_seq()[i]).class
                < self.class_owners_seq().len() by {
                assert((old(self).tokens_seq()[i]).class < old(self).class_owners_seq().len());
            }
        }
        Ok(id)
    }

    /// The minting account of the class, when it exists.
    pub fn class_owner(&self, class: ClassId) -> (r: Option<AccountId>)
        ensures
            r == if (class as int) < self.class_owners_seq().len() {
                Some(self.class_owners_seq()[class as int])
            } else {
                None::<AccountId>
            },
    {
        if (class as usize) < self.class_owners.len() {
            Some(self.class_owners[class as usize])
        } else {
            None
        }
    }

    /// How many classes exist.
    pub fn class_count(&self) -> (n: usize)
        ensures
            n == self.class_owners_seq().len(),
    {
        self.class_owners.len()
    }

    /// How many tokens exist.
    pub fn token_count(&self) -> (n: usize)
        ensures
            n == self.tokens_seq().len(),
    {
        self.tokens.len()
    }

    /// Mints `quantity` fresh tokens of `class` to holder `to`, called
    /// by `who`. Only the class's minting account may mint, and only a
    /// positive quantity; on any refusal nothing changes.
    pub fn mint(&mut self, who: AccountId, to: AccountId, class: ClassId, quantity: u32) -> (r:
        Result<(), AssetError>)
        requires
            old(self).wf(),
        ensures
            final(self).wf(),
            final(self).class_owners_seq() == old(self).class_owners_seq(),
            r == Err::<(), AssetError>(AssetError::InvalidQuantity) <==> quantity < 1,
            r == Err::<(), AssetError>(AssetError::ClassIdNotFound) <==> quantity >= 1 && (
            class as int) >= old(self).class_owners_seq().len(),
            r == Err::<(), AssetError>(AssetError::NoPermission) <==> quantity >= 1 && (
            class as int) < old(self).class_owners_seq().len() && who != old(
                self,
            ).class_owners_seq()[class as int],
            r is Ok <==> quantity >= 1 && (class as int) < old(self).class_owners_seq().len()
                && who == old(self).class_owners_seq()[class as int],
            r is Ok ==> final(self).tokens_seq() == old(self).tokens_seq() + Seq::new(
                quantity as nat,
                |j: int| TokenInfo { class, owner: to },
            ),
            r is Err ==> final(self).tokens_seq() == old(self).tokens_seq(),
    {
        if quantity < 1 {
            return Err(AssetError::InvalidQuantity);
        }
        if (class as usize) >= self.class_owners.len() {
            return Err(AssetError::ClassIdNotFound);
        }
        if who != self.class_owners[class as usize] {
            return Err(AssetError::NoPermission);
        }
        let ghost orig = self.tokens@;
        let mut k: u32 = 0;
        while k < quantity
            invariant
                k <= quantity,
                (class as int) < self.class_owners_seq().len(),
                self.class_owners_seq() == old(self).class_owners_seq(),
                self.tokens_seq() == orig + Seq::new(
                    k as nat,
                    |j: int| TokenInfo { class, owner: to },
                ),
                orig == old(self).tokens_seq(),
                old(self).wf(),
            decreases quantity - k,
        {
            self.tokens.push(TokenInfo { class, owner: to });
            k = k + 1;
            proof {
                assert(self.tokens_seq() =~= orig + Seq::new(
                    k as nat,
                    |j: int| TokenInfo { class, owner: to },
                ));
            }
        }
        proof {
            assert forall|i: int|
                0 <= i < self.tokens_seq().len() implies (#[trigger] self.tokens_seq()[i]).class
                < self.class_owners_seq().len() by {
                if i < orig.len() {
                    assert((old(self).tokens_seq()[i]).class < old(
                        self,
                    ).class_owners_seq().len());
                }
            }
        }
        Ok(())
    }

    /// Moves custody of the token from `from` to `to`. Only the current
    /// holder may move it; on any refusal nothing changes.
    pub fn transfer(&mut self, from: AccountId, to: AccountId, class: ClassId, token: TokenId)
        -> (r: Result<(), AssetError>)
        requires
            old(self).wf(),
        ensures
            final(self).wf(),
            final(self).class_owners_seq() == old(self).class_owners_seq(),
            r == Err::<(), AssetError>(AssetError::TokenIdNotFound) <==> !old(self).is_asset(
                class,
                token,
            ),
            r == Err::<(), AssetError>(AssetError::NoPermission) <==> old(self).is_asset(
                class,
                token,
            ) && old(self).owner_spec(class, token) != Some(from),
            r is Ok <==> old(self).owner_spec(class, token) == Some(from),
            r is Ok ==> final(self).tokens_seq() == old(self).tokens_seq().update(
                token as int,
                TokenInfo { class, owner: to },
            ),
            r is Err ==> final(self).tokens_seq() == old(self).tokens_seq(),
    {
        if token >= self.tokens.len() as u64 {
            return Err(AssetError::TokenIdNotFound);
        }
        let i = token as usize;
        let info = self.tokens[i];
        if info.class != class {
            return Err(AssetError::TokenIdNotFound);
        }
        if info.owner != from {
            return Err(AssetError::NoPermission);
        }
        self.tokens.set(i, TokenInfo { class, owner: to });
        proof {
            assert forall|j: int|
                0 <= j < self.tokens_seq().len() implies (#[trigger] self.tokens_seq()[j]).class
                < self.class_owners_seq().len() by {
                assert((old(self).tokens_seq()[j]).class < old(self).class_owners_seq().len());
            }
        }
        Ok(())
    }

    /// The holder of the token, when the pair names one.
    pub fn owner(&self, class: ClassId, token: TokenId) -> (r: Option<AccountId>)
        ensures
            r == self.owner_spec(class, token),
    {
        if token >= self.tokens.len() as u64 {
            return None;
        }
        let info = self.tokens[token as usize];
        if info.class != class {
            return None;
        }
        Some(info.owner)
    }

    /// How many tokens `who` currently holds.
    pub fn balance(&self, who: AccountId) -> (r: u128)
        ensures
            r == owned_count(self.tokens_seq(), who),
    {
        let mut n: usize = 0;
        let mut i: usize = 0;
        while i < self.tokens.len()
            invariant
                i <= self.tokens_seq().len(),
                n <= i,
                n == owned_count(self.tokens_seq().take(i as int), who),
            decreases self.tokens_seq().len() - i,
        {
            if self.tokens[i].owner == who {
                n = n + 1;
            }
            i = i + 1;
            proof {
                assert(self.tokens_seq().take(i as int).drop_last() =~= self.tokens_seq().take(
                    i as int - 1,
                ));
            }
        }
        proof {
            assert(self.tokens_seq().take(i as int) =~= self.tokens_seq());
        }
        n as u128
    }
}

} // verus!
