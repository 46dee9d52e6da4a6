//! The byte format of a snapshot.
//!
//! A snapshot is written as the eight bytes of `magic`, the number of users,
//! the users, the number of accounts, and the accounts. Every number is
//! written little-endian: identifiers, balances, counts and lengths in eight
//! bytes, a social security number in four. An instant is written as its
//! microseconds in two's complement, a flag as one byte that is 0 or 1, the
//! kind of an account as one byte that is 0. A text is written as the
//! length of its UTF-8 form followed by that form.
//!
//! A user is its identifier, its flag, its social security number, the
//! instants of creation and of last access, then name, date of birth and
//! address. An account is its owner, its kind, its balance, and the instants
//! of creation and of last transaction.

use vstd::prelude::*;
use vstd::bytes::{
    lemma_auto_spec_u32_to_from_le_bytes, lemma_auto_spec_u64_to_from_le_bytes,
    spec_u32_from_le_bytes, spec_u32_to_le_bytes, spec_u64_from_le_bytes, spec_u64_to_le_bytes,
    u32_from_le_bytes, u32_to_le_bytes, u64_from_le_bytes, u64_to_le_bytes,
};
use vstd::slice::{slice_subrange, slice_to_vec};
use vstd::utf8::{
    decode_utf8, decode_utf8_encode_utf8, encode_utf8, encode_utf8_decode_utf8,
    encode_utf8_valid_utf8, valid_utf8,
};
use crate::account::{AccountKind, CheckingAccount, UserAccount, UserRecord};
use crate::clock::Timestamp;
use crate::error::Error;
use crate::model::records;
use crate::snapshot::{Snapshot, SnapshotView};

verus! {

/// The first eight bytes of every snapshot: the letters `LDGR` and the
/// format's version, 1.
pub open spec fn magic() -> Seq<u8> {
    seq![0x4cu8, 0x44u8, 0x47u8, 0x52u8, 0x01u8, 0x00u8, 0x00u8, 0x00u8]
}

/// What is left of the input after a value was read; nothing where reading
/// failed.
pub open spec fn after<T>(parsed: Option<(T, Seq<u8>)>) -> Seq<u8> {
    match parsed {
        Some((_, rest)) => rest,
        None => Seq::empty(),
    }
}

/// A 64-bit number in eight bytes, the least significant first.
pub open spec fn u64_bytes(x: u64) -> Seq<u8> {
    spec_u64_to_le_bytes(x)
}

/// Reads a 64-bit number from the first eight bytes.
pub open spec fn parse_u64(s: Seq<u8>) -> Option<(u64, Seq<u8>)> {
    if s.len() < 8 {
        None
    } else {
        Some((spec_u64_from_le_bytes(s.take(8)), s.skip(8)))
    }
}

/// A 32-bit number in four bytes, the least significant first.
pub open spec fn u32_bytes(x: u32) -> Seq<u8> {
    spec_u32_to_le_bytes(x)
}

/// Reads a 32-bit number from the first four bytes.
pub open spec fn parse_u32(s: Seq<u8>) -> Option<(u32, Seq<u8>)> {
    if s.len() < 4 {
        None
    } else {
        Some((spec_u32_from_le_bytes(s.take(4)), s.skip(4)))
    }
}

/// An instant: its microseconds in eight bytes, in two's complement.
pub open spec fn stamp_bytes(t: Timestamp) -> Seq<u8> {
    u64_bytes(t.micros as u64)
}

/// Reads an instant from the first eight bytes.
pub open spec fn parse_stamp(s: Seq<u8>) -> Option<(Timestamp, Seq<u8>)> {
    match parse_u64(s) {
        Some((raw, rest)) => Some((Timestamp { micros: raw as i64 }, rest)),
        None => None,
    }
}

/// A flag in one byte: 1 for true, 0 for false.
pub open spec fn flag_bytes(flag: bool) -> Seq<u8> {
    seq![if flag { 1u8 } else { 0u8 }]
}

/// Reads a flag from the first byte, which must be 0 or 1.
pub open spec fn parse_flag(s: Seq<u8>) -> Option<(bool, Seq<u8>)> {
    if s.len() < 1 || s[0] > 1 {
        None
    } else {
        Some((s[0] == 1, s.skip(1)))
    }
}

/// The kind of an account in one byte: 0 for a checking account.
pub open spec fn kind_bytes(kind: AccountKind) -> Seq<u8> {
    seq![0u8]
}

/// Reads the kind of an account from the first byte, which must be 0.
pub open spec fn parse_kind(s: Seq<u8>) -> Option<(AccountKind, Seq<u8>)> {
    if s.len() < 1 || s[0] != 0 {
        None
    } else {
        Some((AccountKind::Checking, s.skip(1)))
    }
}

/// A text: the length of its UTF-8 form, then that form.
pub open spec fn text_bytes(text: Seq<char>) -> Seq<u8> {
    u64_bytes(encode_utf8(text).len() as u64) + encode_utf8(text)
}

/// Reads a text: a length, then as many bytes, which must be the UTF-8
/// form of a text.
pub open spec fn parse_text(s: Seq<u8>) -> Option<(Seq<char>, Seq<u8>)> {
    match parse_u64(s) {
        None => None,
        Some((length, rest)) => if rest.len() < length || !valid_utf8(rest.take(length as int)) {
            None
        } else {
            Some((decode_utf8(rest.take(length as int)), rest.skip(length as int)))
        },
    }
}

/// A user, field after field.
pub open spec fn user_bytes(user: UserRecord) -> Seq<u8> {
    u64_bytes(user.id) + flag_bytes(user.active) + u32_bytes(user.social_security) + stamp_bytes(
        user.created_at,
    ) + stamp_bytes(user.last_accessed) + text_bytes(user.name) + text_bytes(user.date_of_birth)
        + text_bytes(user.address)
}

/// Reads a user, field after field.
pub open spec fn parse_user(s: Seq<u8>) -> Option<(UserRecord, Seq<u8>)> {
    let id = parse_u64(s);
    let active = parse_flag(after(id));
    let social_security = parse_u32(after(active));
    let created_at = parse_stamp(after(social_security));
    let last_accessed = parse_stamp(after(created_at));
    let name = parse_text(after(last_accessed));
    let date_of_birth = parse_text(after(name));
    let address = parse_text(after(date_of_birth));
    if id is Some && active is Some && social_security is Some && created_at is Some
        && last_accessed is Some && name is Some && date_of_birth is Some && address is Some {
        Some(
            (
                UserRecord {
                    id: id.unwrap().0,
                    name: name.unwrap().0,
                    active: active.unwrap().0,
                    date_of_birth: date_of_birth.unwrap().0,
                    address: address.unwrap().0,
                    social_security: social_security.unwrap().0,
                    created_at: created_at.unwrap().0,
                    last_accessed: last_accessed.unwrap().0,
                },
                after(address),
            ),
        )
    } else {
        None
    }
}

/// An account, field after field.
pub open spec fn account_bytes(account: CheckingAccount) -> Seq<u8> {
    u64_bytes(account.account_owner_id) + kind_bytes(account.account_type) + u64_bytes(
        account.balance,
    ) + stamp_bytes(account.created_at) + stamp_bytes(account.last_transaction)
}

/// Reads an account, field after field.
pub open spec fn parse_account(s: Seq<u8>) -> Option<(CheckingAccount, Seq<u8>)> {
    let owner = parse_u64(s);
    let kind = parse_kind(after(owner));
    let balance = parse_u64(after(kind));
    let created_at = parse_stamp(after(balance));
    let last_transaction = parse_stamp(after(created_at));
    if owner is Some && kind is Some && balance is Some && created_at is Some
        && last_transaction is Some {
        Some(
            (
                CheckingAccount {
                    account_owner_id: owner.unwrap().0,
                    account_type: kind.unwrap().0,
                    balance: balance.unwrap().0,
                    created_at: created_at.unwrap().0,
                    last_transaction: last_transaction.unwrap().0,
                },
                after(last_transaction),
            ),
        )
    } else {
        None
    }
}

/// The users one after the other.
pub open spec fn users_bytes(users: Seq<UserRecord>) -> Seq<u8>
    decreases users.len(),
{
    if users.len() == 0 {
        Seq::empty()
    } else {
        users_bytes(users.drop_last()) + user_bytes(users.last())
    }
}

/// Reads `count` users one after the other.
pub open spec fn parse_users(s: Seq<u8>, count: nat) -> Option<(Seq<UserRecord>, Seq<u8>)>
    decreases count,
{
    if count == 0 {
        Some((Seq::empty(), s))
    } else {
        match parse_users(s, (count - 1) as nat) {
            None => None,
            Some((front, rest)) => match parse_user(rest) {
                None => None,
                Some((user, rest)) => Some((front.push(user), rest)),
            },
        }
    }
}

/// The accounts one after the other.
pub open spec fn accounts_bytes(accounts: Seq<CheckingAccount>) -> Seq<u8>
    decreases accounts.len(),
{
    if accounts.len() == 0 {
        Seq::empty()
    } else {
        accounts_bytes(accounts.drop_last()) + account_bytes(accounts.last())
    }
}

/// Reads `count` accounts one after the other.
pub open spec fn parse_accounts(s: Seq<u8>, count: nat) -> Option<(Seq<CheckingAccount>, Seq<u8>)>
    decreases count,
{
    if count == 0 {
        Some((Seq::empty(), s))
    } else {
        match parse_accounts(s, (count - 1) as nat) {
            None => None,
            Some((front, rest)) => match parse_account(rest) {
                None => None,
                Some((account, rest)) => Some((front.push(account), rest)),
            },
        }
    }
}

/// A text whose UTF-8 form is short enough for its length to be written.
pub open spec fn text_fits(text: Seq<char>) -> bool {
    encode_utf8(text).len() <= u64::MAX
}

impl SnapshotView {
    /// Every count and every length of the snapshot can be written in
    /// eight bytes.
    pub open spec fn encodable(self) -> bool {
        &&& self.users.len() <= u64::MAX
        &&& self.accounts.len() <= u64::MAX
        &&& forall|i: int|
            0 <= i < self.users.len() ==> {
                &&& text_fits((#[trigger] self.users[i]).name)
                &&& text_fits(self.users[i].date_of_birth)
                &&& text_fits(self.users[i].address)
            }
    }
}

/// The bytes of a snapshot.
pub open spec fn encode_snapshot(snapshot: SnapshotView) -> Seq<u8> {
    magic() + u64_bytes(snapshot.users.len() as u64) + users_bytes(snapshot.users) + u64_bytes(
        snapshot.accounts.len() as u64,
    ) + accounts_bytes(snapshot.accounts)
}

/// The snapshot that the bytes hold; `None` where they hold none: where
/// they do not begin with `magic`, end early, go on after the last account,
/// or hold a flag, a kind or a text that is none.
pub open spec fn decode_snapshot(s: Seq<u8>) -> Option<SnapshotView> {
    if s.len() < 8 || s.take(8) != magic() {
        None
    } else {
        let user_count = parse_u64(s.skip(8));
        let users = if user_count is Some {
            parse_users(after(user_count), user_count.unwrap().0 as nat)
        } else {
            None
        };
        let account_count = parse_u64(after(users));
        let accounts = if account_count is Some {
            parse_accounts(after(account_count), account_count.unwrap().0 as nat)
        } else {
            None
        };
        if users is Some && accounts is Some && after(accounts).len() == 0 {
            Some(SnapshotView { users: users.unwrap().0, accounts: accounts.unwrap().0 })
        } else {
            None
        }
    }
}


/// Reading what `u64_bytes` wrote gives the number back and leaves what
/// followed.
pub proof fn lemma_parse_u64(x: u64, rest: Seq<u8>)
    ensures
        parse_u64(u64_bytes(x) + rest) == Some((x, rest)),
{
    lemma_auto_spec_u64_to_from_le_bytes();
    let written = u64_bytes(x);
    assert((written + rest).take(8) =~= written);
    assert((written + rest).skip(8) =~= rest);
}

/// Reading what `u32_bytes` wrote gives the number back and leaves what
/// followed.
pub proof fn lemma_parse_u32(x: u32, rest: Seq<u8>)
    ensures
        parse_u32(u32_bytes(x) + rest) == Some((x, rest)),
{
    lemma_auto_spec_u32_to_from_le_bytes();
    let written = u32_bytes(x);
    assert((written + rest).take(4) =~= written);
    assert((written + rest).skip(4) =~= rest);
}

/// Reading what `stamp_bytes` wrote gives the instant back and leaves what
/// followed.
pub proof fn lemma_parse_stamp(t: Timestamp, rest: Seq<u8>)
    ensures
        parse_stamp(stamp_bytes(t) + rest) == Some((t, rest)),
{
    let micros = t.micros;
    assert((micros as u64) as i64 == micros) by (bit_vector);
    lemma_parse_u64(micros as u64, rest);
}

/// Reading what `flag_bytes` wrote gives the flag back and leaves what
/// followed.
pub proof fn lemma_parse_flag(flag: bool, rest: Seq<u8>)
    ensures
        parse_flag(flag_bytes(flag) + rest) == Some((flag, rest)),
{
    assert((flag_bytes(flag) + rest).skip(1) =~= rest);
}

/// Reading what `kind_bytes` wrote gives the kind back and leaves what
/// followed.
pub proof fn lemma_parse_kind(kind: AccountKind, rest: Seq<u8>)
    ensures
        parse_kind(kind_bytes(kind) + rest) == Some((kind, rest)),
{
    assert((kind_bytes(kind) + rest).skip(1) =~= rest);
}

/// Reading what `text_bytes` wrote gives the text back and leaves what
/// followed.
pub proof fn lemma_parse_text(text: Seq<char>, rest: Seq<u8>)
    requires
        text_fits(text),
    ensures
        parse_text(text_bytes(text) + rest) == Some((text, rest)),
{
    let form = encode_utf8(text);
    let length = form.len() as u64;
    encode_utf8_valid_utf8(text);
    encode_utf8_decode_utf8(text);
    lemma_parse_u64(length, form + rest);
    assert(text_bytes(text) + rest =~= u64_bytes(length) + (form + rest));
    assert((form + rest).take(length as int) =~= form);
    assert((form + rest).skip(length as int) =~= rest);
}

/// The bytes of a user followed by `rest`, field by field from the front.
pub proof fn lemma_user_bytes_split(user: UserRecord, rest: Seq<u8>)
    ensures
        user_bytes(user) + rest == u64_bytes(user.id) + (flag_bytes(user.active) + (u32_bytes(
            user.social_security,
        ) + (stamp_bytes(user.created_at) + (stamp_bytes(user.last_accessed) + (text_bytes(
            user.name,
        ) + (text_bytes(user.date_of_birth) + (text_bytes(user.address) + rest))))))),
{
    assert(user_bytes(user) + rest =~= u64_bytes(user.id) + (flag_bytes(user.active) + (u32_bytes(
        user.social_security,
    ) + (stamp_bytes(user.created_at) + (stamp_bytes(user.last_accessed) + (text_bytes(user.name)
        + (text_bytes(user.date_of_birth) + (text_bytes(user.address) + rest))))))));
}

/// The bytes of an account followed by `rest`, field by field from the
/// front.
pub proof fn lemma_account_bytes_split(account: CheckingAccount, rest: Seq<u8>)
    ensures
        account_bytes(account) + rest == u64_bytes(account.account_owner_id) + (kind_bytes(
            account.account_type,
        ) + (u64_bytes(account.balance) + (stamp_bytes(account.created_at) + (stamp_bytes(
            account.last_transaction,
        ) + rest)))),
{
    assert(account_bytes(account) + rest =~= u64_bytes(account.account_owner_id) + (kind_bytes(
        account.account_type,
    ) + (u64_bytes(account.balance) + (stamp_bytes(account.created_at) + (stamp_bytes(
        account.last_transaction,
    ) + rest)))));
}

/// Reading what `user_bytes` wrote gives the user back and leaves what
/// followed.
pub proof fn lemma_parse_user(user: UserRecord, rest: Seq<u8>)
    requires
        text_fits(user.name),
        text_fits(user.date_of_birth),
        text_fits(user.address),
    ensures
        parse_user(user_bytes(user) + rest) == Some((user, rest)),
{
    let from_address = text_bytes(user.address) + rest;
    let from_birth = text_bytes(user.date_of_birth) + from_address;
    let from_name = text_bytes(user.name) + from_birth;
    let from_accessed = stamp_bytes(user.last_accessed) + from_name;
    let from_created = stamp_bytes(user.created_at) + from_accessed;
    let from_social = u32_bytes(user.social_security) + from_created;
    let from_active = flag_bytes(user.active) + from_social;
    lemma_user_bytes_split(user, rest);
    lemma_parse_u64(user.id, from_active);
    lemma_parse_flag(user.active, from_social);
    lemma_parse_u32(user.social_security, from_created);
    lemma_parse_stamp(user.created_at, from_accessed);
    lemma_parse_stamp(user.last_accessed, from_name);
    lemma_parse_text(user.name, from_birth);
    lemma_parse_text(user.date_of_birth, from_address);
    lemma_parse_text(user.address, rest);
}

/// Reading what `account_bytes` wrote gives the account back and leaves
/// what followed.
pub proof fn lemma_parse_account(account: CheckingAccount, rest: Seq<u8>)
    ensures
        parse_account(account_bytes(account) + rest) == Some((account, rest)),
{
    let from_transaction = stamp_bytes(account.last_transaction) + rest;
    let from_created = stamp_bytes(account.created_at) + from_transaction;
    let from_balance = u64_bytes(account.balance) + from_created;
    let from_kind = kind_bytes(account.account_type) + from_balance;
    lemma_account_bytes_split(account, rest);
    lemma_parse_u64(account.account_owner_id, from_kind);
    lemma_parse_kind(account.account_type, from_balance);
    lemma_parse_u64(account.balance, from_created);
    lemma_parse_stamp(account.created_at, from_transaction);
    lemma_parse_stamp(account.last_transaction, rest);
}

/// Reading what `users_bytes` wrote gives the users back and leaves what
/// followed.
pub proof fn lemma_parse_users(users: Seq<UserRecord>, rest: Seq<u8>)
    requires
        forall|i: int|
            0 <= i < users.len() ==> {
                &&& text_fits((#[trigger] users[i]).name)
                &&& text_fits(users[i].date_of_birth)
                &&& text_fits(users[i].address)
            },
    ensures
        parse_users(users_bytes(users) + rest, users.len()) == Some((users, rest)),
    decreases users.len(),
{
    if users.len() > 0 {
        let front = users.drop_last();
        let last = users.last();
        assert forall|i: int| 0 <= i < front.len() implies {
            &&& text_fits((#[trigger] front[i]).name)
            &&& text_fits(front[i].date_of_birth)
            &&& text_fits(front[i].address)
        } by {
            assert(front[i] == users[i]);
        }
        assert(text_fits(users[users.len() - 1].name));
        lemma_parse_users(front, user_bytes(last) + rest);
        lemma_parse_user(last, rest);
        assert(users_bytes(users) + rest =~= users_bytes(front) + (user_bytes(last) + rest));
        assert(front.push(last) =~= users);
    }
}

/// Reading what `accounts_bytes` wrote gives the accounts back and leaves
/// what followed.
pub proof fn lemma_parse_accounts(accounts: Seq<CheckingAccount>, rest: Seq<u8>)
    ensures
        parse_accounts(accounts_bytes(accounts) + rest, accounts.len()) == Some((accounts, rest)),
    decreases accounts.len(),
{
    if accounts.len() > 0 {
        let front = accounts.drop_last();
        let last = accounts.last();
        lemma_parse_accounts(front, account_bytes(last) + rest);
        lemma_parse_account(last, rest);
        assert(accounts_bytes(accounts) + rest =~= accounts_bytes(front) + (account_bytes(last)
            + rest));
        assert(front.push(last) =~= accounts);
    }
}

/// Decoding the bytes of a snapshot gives the snapshot back, field for
/// field: every identifier, balance, flag, instant and text.
pub proof fn law_decode_encode(snapshot: SnapshotView)
    requires
        snapshot.encodable(),
    ensures
        decode_snapshot(encode_snapshot(snapshot)) == Some(snapshot),
{
    let bytes = encode_snapshot(snapshot);
    let from_accounts = accounts_bytes(snapshot.accounts);
    let from_account_count = u64_bytes(snapshot.accounts.len() as u64) + from_accounts;
    let from_users = users_bytes(snapshot.users) + from_account_count;
    let from_user_count = u64_bytes(snapshot.users.len() as u64) + from_users;
    assert(bytes =~= magic() + from_user_count);
    assert(bytes.take(8) =~= magic());
    assert(bytes.skip(8) =~= from_user_count);
    lemma_parse_u64(snapshot.users.len() as u64, from_users);
    lemma_parse_users(snapshot.users, from_account_count);
    lemma_parse_u64(snapshot.accounts.len() as u64, from_accounts);
    lemma_parse_accounts(snapshot.accounts, Seq::empty());
    assert(from_accounts + Seq::<u8>::empty() =~= from_accounts);
}

/// What `parse_u64` read is what `u64_bytes` writes.
pub proof fn lemma_u64_parsed(s: Seq<u8>)
    requires
        parse_u64(s) is Some,
    ensures
        s == u64_bytes(parse_u64(s).unwrap().0) + after(parse_u64(s)),
{
    lemma_auto_spec_u64_to_from_le_bytes();
    let head = s.take(8);
    assert(spec_u64_to_le_bytes(spec_u64_from_le_bytes(head)) == head);
    assert(s =~= head + s.skip(8));
}

/// What `parse_u32` read is what `u32_bytes` writes.
pub proof fn lemma_u32_parsed(s: Seq<u8>)
    requires
        parse_u32(s) is Some,
    ensures
        s == u32_bytes(parse_u32(s).unwrap().0) + after(parse_u32(s)),
{
    lemma_auto_spec_u32_to_from_le_bytes();
    let head = s.take(4);
    assert(spec_u32_to_le_bytes(spec_u32_from_le_bytes(head)) == head);
    assert(s =~= head + s.skip(4));
}

/// What `parse_stamp` read is what `stamp_bytes` writes.
pub proof fn lemma_stamp_parsed(s: Seq<u8>)
    requires
        parse_stamp(s) is Some,
    ensures
        s == stamp_bytes(parse_stamp(s).unwrap().0) + after(parse_stamp(s)),
{
    let raw = parse_u64(s).unwrap().0;
    assert((raw as i64) as u64 == raw) by (bit_vector);
    lemma_u64_parsed(s);
}

/// What `parse_flag` read is what `flag_bytes` writes.
pub proof fn lemma_flag_parsed(s: Seq<u8>)
    requires
        parse_flag(s) is Some,
    ensures
        s == flag_bytes(parse_flag(s).unwrap().0) + after(parse_flag(s)),
{
    assert(s =~= flag_bytes(s[0] == 1) + s.skip(1));
}

/// What `parse_kind` read is what `kind_bytes` writes.
pub proof fn lemma_kind_parsed(s: Seq<u8>)
    requires
        parse_kind(s) is Some,
    ensures
        s == kind_bytes(parse_kind(s).unwrap().0) + after(parse_kind(s)),
{
    assert(s =~= kind_bytes(AccountKind::Checking) + s.skip(1));
}

/// What `parse_text` read is what `text_bytes` writes.
pub proof fn lemma_text_parsed(s: Seq<u8>)
    requires
        parse_text(s) is Some,
    ensures
        text_fits(parse_text(s).unwrap().0),
        s == text_bytes(parse_text(s).unwrap().0) + after(parse_text(s)),
{
    let length = parse_u64(s).unwrap().0;
    let rest = after(parse_u64(s));
    let form = rest.take(length as int);
    lemma_u64_parsed(s);
    decode_utf8_encode_utf8(form);
    assert(rest =~= form + rest.skip(length as int));
    assert(s =~= text_bytes(decode_utf8(form)) + rest.skip(length as int));
}

/// What `parse_user` read is what `user_bytes` writes.
pub proof fn lemma_user_parsed(s: Seq<u8>)
    requires
        parse_user(s) is Some,
    ensures
        text_fits(parse_user(s).unwrap().0.name),
        text_fits(parse_user(s).unwrap().0.date_of_birth),
        text_fits(parse_user(s).unwrap().0.address),
        s == user_bytes(parse_user(s).unwrap().0) + after(parse_user(s)),
{
    let id = parse_u64(s);
    let active = parse_flag(after(id));
    let social_security = parse_u32(after(active));
    let created_at = parse_stamp(after(social_security));
    let last_accessed = parse_stamp(after(created_at));
    let name = parse_text(after(last_accessed));
    let date_of_birth = parse_text(after(name));
    let address = parse_text(after(date_of_birth));
    lemma_u64_parsed(s);
    lemma_flag_parsed(after(id));
    lemma_u32_parsed(after(active));
    lemma_stamp_parsed(after(social_security));
    lemma_stamp_parsed(after(created_at));
    lemma_text_parsed(after(last_accessed));
    lemma_text_parsed(after(name));
    lemma_text_parsed(after(date_of_birth));
    lemma_user_bytes_split(parse_user(s).unwrap().0, after(address));
}

/// What `parse_account` read is what `account_bytes` writes.
pub proof fn lemma_account_parsed(s: Seq<u8>)
    requires
        parse_account(s) is Some,
    ensures
        s == account_bytes(parse_account(s).unwrap().0) + after(parse_account(s)),
{
    let owner = parse_u64(s);
    let kind = parse_kind(after(owner));
    let balance = parse_u64(after(kind));
    let created_at = parse_stamp(after(balance));
    let last_transaction = parse_stamp(after(created_at));
    lemma_u64_parsed(s);
    lemma_kind_parsed(after(owner));
    lemma_u64_parsed(after(kind));
    lemma_stamp_parsed(after(balance));
    lemma_stamp_parsed(after(created_at));
    lemma_account_bytes_split(parse_account(s).unwrap().0, after(last_transaction));
}

/// What `parse_users` read is what `users_bytes` writes: as many users as
/// were asked for.
pub proof fn lemma_users_parsed(s: Seq<u8>, count: nat)
    requires
        parse_users(s, count) is Some,
    ensures
        parse_users(s, count).unwrap().0.len() == count,
        forall|i: int|
            0 <= i < count ==> {
                &&& text_fits((#[trigger] parse_users(s, count).unwrap().0[i]).name)
                &&& text_fits(parse_users(s, count).unwrap().0[i].date_of_birth)
                &&& text_fits(parse_users(s, count).unwrap().0[i].address)
            },
        s == users_bytes(parse_users(s, count).unwrap().0) + after(parse_users(s, count)),
    decreases count,
{
    let users = parse_users(s, count).unwrap().0;
    if count == 0 {
        assert(s =~= users_bytes(users) + s);
    } else {
        let before = parse_users(s, (count - 1) as nat);
        let front = before.unwrap().0;
        lemma_users_parsed(s, (count - 1) as nat);
        lemma_user_parsed(after(before));
        let user = parse_user(after(before)).unwrap().0;
        assert(users.drop_last() =~= front);
        assert(users.last() == user);
        assert forall|i: int| 0 <= i < count implies {
            &&& text_fits((#[trigger] users[i]).name)
            &&& text_fits(users[i].date_of_birth)
            &&& text_fits(users[i].address)
        } by {
            if i < count - 1 {
                assert(users[i] == front[i]);
            }
        }
        assert(s =~= users_bytes(users) + after(parse_users(s, count)));
    }
}

/// What `parse_accounts` read is what `accounts_bytes` writes: as many
/// accounts as were asked for.
pub proof fn lemma_accounts_parsed(s: Seq<u8>, count: nat)
    requires
        parse_accounts(s, count) is Some,
    ensures
        parse_accounts(s, count).unwrap().0.len() == count,
        s == accounts_bytes(parse_accounts(s, count).unwrap().0) + after(parse_accounts(s, count)),
    decreases count,
{
    let accounts = parse_accounts(s, count).unwrap().0;
    if count == 0 {
        assert(s =~= accounts_bytes(accounts) + s);
    } else {
        let before = parse_accounts(s, (count - 1) as nat);
        lemma_accounts_parsed(s, (count - 1) as nat);
        lemma_account_parsed(after(before));
        assert(accounts.drop_last() =~= before.unwrap().0);
        assert(s =~= accounts_bytes(accounts) + after(parse_accounts(s, count)));
    }
}

/// Bytes that hold a snapshot are the bytes of that snapshot: a snapshot
/// has one byte form and no other.
pub proof fn law_encode_decode(bytes: Seq<u8>)
    requires
        decode_snapshot(bytes) is Some,
    ensures
        decode_snapshot(bytes).unwrap().encodable(),
        encode_snapshot(decode_snapshot(bytes).unwrap()) == bytes,
{
    let snapshot = decode_snapshot(bytes).unwrap();
    let user_count = parse_u64(bytes.skip(8));
    let users = parse_users(after(user_count), user_count.unwrap().0 as nat);
    let account_count = parse_u64(after(users));
    let accounts = parse_accounts(after(account_count), account_count.unwrap().0 as nat);
    lemma_u64_parsed(bytes.skip(8));
    lemma_users_parsed(after(user_count), user_count.unwrap().0 as nat);
    lemma_u64_parsed(after(users));
    lemma_accounts_parsed(after(account_count), account_count.unwrap().0 as nat);
    assert(bytes =~= bytes.take(8) + bytes.skip(8));
    assert(after(account_count) =~= accounts_bytes(snapshot.accounts));
    assert(bytes =~= encode_snapshot(snapshot));
}

/// Where the first `count` users cannot be read, no larger number of users
/// can.
pub proof fn lemma_parse_users_fails(s: Seq<u8>, count: nat, more: nat)
    requires
        parse_users(s, count) is None,
        count <= more,
    ensures
        parse_users(s, more) is None,
    decreases more,
{
    if count < more {
        lemma_parse_users_fails(s, count, (more - 1) as nat);
    }
}

/// Where the first `count` accounts cannot be read, no larger number of
/// accounts can.
pub proof fn lemma_parse_accounts_fails(s: Seq<u8>, count: nat, more: nat)
    requires
        parse_accounts(s, count) is None,
        count <= more,
    ensures
        parse_accounts(s, more) is None,
    decreases more,
{
    if count < more {
        lemma_parse_accounts_fails(s, count, (more - 1) as nat);
    }
}

/// Calls `String::from_utf8` of the standard library.
///
/// Taken on trust, as its documentation has it: the call succeeds exactly
/// on bytes that are the UTF-8 form of a text, and the string that it gives
/// is that text.
#[verifier::external_body]
fn string_from_utf8(bytes: Vec<u8>) -> (r: Option<String>)
    ensures
        r is Some <==> valid_utf8(bytes@),
        r matches Some(text) ==> text@ == decode_utf8(bytes@),
{
    match String::from_utf8(bytes) {
        Ok(text) => Some(text),
        Err(_) => None,
    }
}

fn put_u64(out: &mut Vec<u8>, x: u64)
    ensures
        final(out)@ == old(out)@ + u64_bytes(x),
{
    let mut written = u64_to_le_bytes(x);
    out.append(&mut written);
}

fn put_u32(out: &mut Vec<u8>, x: u32)
    ensures
        final(out)@ == old(out)@ + u32_bytes(x),
{
    let mut written = u32_to_le_bytes(x);
    out.append(&mut written);
}

fn put_stamp(out: &mut Vec<u8>, t: Timestamp)
    ensures
        final(out)@ == old(out)@ + stamp_bytes(t),
{
    put_u64(out, #[verifier::truncate] (t.micros as u64));
}

fn put_flag(out: &mut Vec<u8>, flag: bool)
    ensures
        final(out)@ == old(out)@ + flag_bytes(flag),
{
    out.push(if flag { 1u8 } else { 0u8 });
    assert(out@ =~= old(out)@ + flag_bytes(flag));
}

fn put_kind(out: &mut Vec<u8>, kind: AccountKind)
    ensures
        final(out)@ == old(out)@ + kind_bytes(kind),
{
    match kind {
        AccountKind::Checking => out.push(0u8),
    }
    assert(out@ =~= old(out)@ + kind_bytes(kind));
}

fn put_text(out: &mut Vec<u8>, text: &String)
    ensures
        final(out)@ == old(out)@ + text_bytes(text@),
        text_fits(text@),
{
    let form = text.as_str().as_bytes();
    put_u64(out, form.len() as u64);
    let mut copy = slice_to_vec(form);
    out.append(&mut copy);
    assert(out@ =~= old(out)@ + text_bytes(text@));
}

fn put_user(out: &mut Vec<u8>, user: &UserAccount)
    ensures
        final(out)@ == old(out)@ + user_bytes(user@),
        text_fits(user@.name),
        text_fits(user@.date_of_birth),
        text_fits(user@.address),
{
    put_u64(out, user.id);
    put_flag(out, user.active);
    put_u32(out, user.social_security);
    put_stamp(out, user.created_at);
    put_stamp(out, user.last_accessed);
    put_text(out, &user.name);
    put_text(out, &user.date_of_birth);
    put_text(out, &user.address);
    assert(out@ =~= old(out)@ + user_bytes(user@));
}

fn put_account(out: &mut Vec<u8>, account: &CheckingAccount)
    ensures
        final(out)@ == old(out)@ + account_bytes(*account),
{
    put_u64(out, account.account_owner_id);
    put_kind(out, account.account_type);
    put_u64(out, account.balance);
    put_stamp(out, account.created_at);
    put_stamp(out, account.last_transaction);
    assert(out@ =~= old(out)@ + account_bytes(*account));
}

/// Writes a snapshot as bytes.
pub fn encode(snapshot: &Snapshot) -> (bytes: Vec<u8>)
    ensures
        snapshot@.encodable(),
        bytes@ == encode_snapshot(snapshot@),
{
    let ghost users = records(snapshot.users@);
    let ghost accounts = snapshot.accounts@;
    let mut out: Vec<u8> = Vec::new();
    out.push(0x4c);
    out.push(0x44);
    out.push(0x47);
    out.push(0x52);
    out.push(0x01);
    out.push(0x00);
    out.push(0x00);
    out.push(0x00);
    assert(out@ =~= magic());
    put_u64(&mut out, snapshot.users.len() as u64);
    let ghost head = out@;
    let mut i: usize = 0;
    while i < snapshot.users.len()
        invariant
            i <= snapshot.users.len(),
            users == records(snapshot.users@),
            out@ == head + users_bytes(users.take(i as int)),
            forall|j: int|
                0 <= j < i ==> {
                    &&& text_fits((#[trigger] users[j]).name)
                    &&& text_fits(users[j].date_of_birth)
                    &&& text_fits(users[j].address)
                },
        decreases snapshot.users.len() - i,
    {
        put_user(&mut out, &snapshot.users[i]);
        proof {
            let next = users.take(i + 1);
            assert(next.drop_last() =~= users.take(i as int));
            assert(next.last() == snapshot.users[i as int]@);
            assert(out@ =~= head + users_bytes(next));
        }
        i = i + 1;
    }
    assert(users.take(i as int) =~= users);
    put_u64(&mut out, snapshot.accounts.len() as u64);
    let ghost head = out@;
    let mut k: usize = 0;
    while k < snapshot.accounts.len()
        invariant
            k <= snapshot.accounts.len(),
            accounts == snapshot.accounts@,
            out@ == head + accounts_bytes(accounts.take(k as int)),
        decreases snapshot.accounts.len() - k,
    {
        put_account(&mut out, &snapshot.accounts[k]);
        proof {
            let next = accounts.take(k + 1);
            assert(next.drop_last() =~= accounts.take(k as int));
            assert(out@ =~= head + accounts_bytes(next));
        }
        k = k + 1;
    }
    assert(accounts.take(k as int) =~= accounts);
    out
}

/// `r` is what reading from place `at` of `bytes` gives, where reading what
/// is left there gives `parsed`: the same value, and the place at which the
/// rest begins.
pub open spec fn reads<T>(
    bytes: Seq<u8>,
    at: usize,
    parsed: Option<(T, Seq<u8>)>,
    r: Option<(T, usize)>,
) -> bool {
    match parsed {
        Some((value, rest)) => {
            &&& r is Some
            &&& r.unwrap().0 == value
            &&& at <= r.unwrap().1 <= bytes.len()
            &&& bytes.skip(r.unwrap().1 as int) == rest
        },
        None => r is None,
    }
}

fn get_u64(bytes: &[u8], at: usize) -> (r: Option<(u64, usize)>)
    requires
        at <= bytes.len(),
    ensures
        reads(bytes@, at, parse_u64(bytes@.skip(at as int)), r),
{
    if bytes.len() - at < 8 {
        return None;
    }
    let x: u64 = u64_from_le_bytes(slice_subrange(bytes, at, at + 8));
    proof {
        assert(bytes@.skip(at as int).take(8) =~= bytes@.subrange(at as int, at + 8));
        assert(bytes@.skip(at as int).skip(8) =~= bytes@.skip(at + 8));
    }
    Some((x, at + 8))
}

fn get_u32(bytes: &[u8], at: usize) -> (r: Option<(u32, usize)>)
    requires
        at <= bytes.len(),
    ensures
        reads(bytes@, at, parse_u32(bytes@.skip(at as int)), r),
{
    if bytes.len() - at < 4 {
        return None;
    }
    let x: u32 = u32_from_le_bytes(slice_subrange(bytes, at, at + 4));
    proof {
        assert(bytes@.skip(at as int).take(4) =~= bytes@.subrange(at as int, at + 4));
        assert(bytes@.skip(at as int).skip(4) =~= bytes@.skip(at + 4));
    }
    Some((x, at + 4))
}

fn get_stamp(bytes: &[u8], at: usize) -> (r: Option<(Timestamp, usize)>)
    requires
        at <= bytes.len(),
    ensures
        reads(bytes@, at, parse_stamp(bytes@.skip(at as int)), r),
{
    match get_u64(bytes, at) {
        Some((raw, next)) => Some(
            (Timestamp { micros: #[verifier::truncate] (raw as i64) }, next),
        ),
        None => None,
    }
}

fn get_flag(bytes: &[u8], at: usize) -> (r: Option<(bool, usize)>)
    requires
        at <= bytes.len(),
    ensures
        reads(bytes@, at, parse_flag(bytes@.skip(at as int)), r),
{
    if bytes.len() - at < 1 || bytes[at] > 1 {
        return None;
    }
    assert(bytes@.skip(at as int).skip(1) =~= bytes@.skip(at + 1));
    Some((bytes[at] == 1, at + 1))
}

fn get_kind(bytes: &[u8], at: usize) -> (r: Option<(AccountKind, usize)>)
    requires
        at <= bytes.len(),
    ensures
        reads(bytes@, at, parse_kind(bytes@.skip(at as int)), r),
{
    if bytes.len() - at < 1 || bytes[at] != 0 {
        return None;
    }
    assert(bytes@.skip(at as int).skip(1) =~= bytes@.skip(at + 1));
    Some((AccountKind::Checking, at + 1))
}

fn get_text(bytes: &[u8], at: usize) -> (r: Option<(String, usize)>)
    requires
        at <= bytes.len(),
    ensures
        match parse_text(bytes@.skip(at as int)) {
            Some((text, rest)) => {
                &&& r is Some
                &&& r.unwrap().0@ == text
                &&& at <= r.unwrap().1 <= bytes.len()
                &&& bytes@.skip(r.unwrap().1 as int) == rest
            },
            None => r is None,
        },
{
    let (length, start) = match get_u64(bytes, at) {
        Some(found) => found,
        None => {
            return None;
        },
    };
    if length > (bytes.len() - start) as u64 {
        return None;
    }
    let end: usize = start + length as usize;
    let form = slice_to_vec(slice_subrange(bytes, start, end));
    proof {
        assert(bytes@.skip(start as int).take(length as int) =~= bytes@.subrange(
            start as int,
            end as int,
        ));
        assert(bytes@.skip(start as int).skip(length as int) =~= bytes@.skip(end as int));
    }
    match string_from_utf8(form) {
        Some(text) => Some((text, end)),
        None => None,
    }
}

fn get_user(bytes: &[u8], at: usize) -> (r: Option<(UserAccount, usize)>)
    requires
        at <= bytes.len(),
    ensures
        match parse_user(bytes@.skip(at as int)) {
            Some((user, rest)) => {
                &&& r is Some
                &&& r.unwrap().0@ == user
                &&& at <= r.unwrap().1 <= bytes.len()
                &&& bytes@.skip(r.unwrap().1 as int) == rest
            },
            None => r is None,
        },
{
    let (id, at) = match get_u64(bytes, at) {
        Some(found) => found,
        None => {
            return None;
        },
    };
    let (active, at) = match get_flag(bytes, at) {
        Some(found) => found,
        None => {
            return None;
        },
    };
    let (social_security, at) = match get_u32(bytes, at) {
        Some(found) => found,
        None => {
            return None;
        },
    };
    let (created_at, at) = match get_stamp(bytes, at) {
        Some(found) => found,
        None => {
            return None;
        },
    };
    let (last_accessed, at) = match get_stamp(bytes, at) {
        Some(found) => found,
        None => {
            return None;
        },
    };
    let (name, at) = match get_text(bytes, at) {
        Some(found) => found,
        None => {
            return None;
        },
    };
    let (date_of_birth, at) = match get_text(bytes, at) {
        Some(found) => found,
        None => {
            return None;
        },
    };
    let (address, at) = match get_text(bytes, at) {
        Some(found) => found,
        None => {
            return None;
        },
    };
    Some(
        (
            UserAccount {
                id,
                name,
                active,
                date_of_birth,
                address,
                social_security,
                created_at,
                last_accessed,
            },
            at,
        ),
    )
}

fn get_account(bytes: &[u8], at: usize) -> (r: Option<(CheckingAccount, usize)>)
    requires
        at <= bytes.len(),
    ensures
        reads(bytes@, at, parse_account(bytes@.skip(at as int)), r),
{
    let (account_owner_id, at) = match get_u64(bytes, at) {
        Some(found) => found,
        None => {
            return None;
        },
    };
    let (account_type, at) = match get_kind(bytes, at) {
        Some(found) => found,
        None => {
            return None;
        },
    };
    let (balance, at) = match get_u64(bytes, at) {
        Some(found) => found,
        None => {
            return None;
        },
    };
    let (created_at, at) = match get_stamp(bytes, at) {
        Some(found) => found,
        None => {
            return None;
        },
    };
    let (last_transaction, at) = match get_stamp(bytes, at) {
        Some(found) => found,
        None => {
            return None;
        },
    };
    Some(
        (
            CheckingAccount { account_owner_id, account_type, balance, created_at, last_transaction },
            at,
        ),
    )
}

fn get_users(bytes: &[u8], at: usize, count: u64) -> (r: Option<(Vec<UserAccount>, usize)>)
    requires
        at <= bytes.len(),
    ensures
        match parse_users(bytes@.skip(at as int), count as nat) {
            Some((users, rest)) => {
                &&& r is Some
                &&& records(r.unwrap().0@) == users
                &&& at <= r.unwrap().1 <= bytes.len()
                &&& bytes@.skip(r.unwrap().1 as int) == rest
            },
            None => r is None,
        },
{
    let ghost input = bytes@.skip(at as int);
    let mut users: Vec<UserAccount> = Vec::new();
    let mut place: usize = at;
    let mut i: u64 = 0;
    assert(records(users@) =~= Seq::empty());
    while i < count
        invariant
            i <= count,
            at <= place <= bytes.len(),
            input == bytes@.skip(at as int),
            parse_users(input, i as nat) == Some((records(users@), bytes@.skip(place as int))),
        decreases count - i,
    {
        let ghost before = records(users@);
        match get_user(bytes, place) {
            Some((user, next)) => {
                users.push(user);
                assert(records(users@) =~= before.push(user@));
                place = next;
            },
            None => {
                proof {
                    lemma_parse_users_fails(input, (i + 1) as nat, count as nat);
                }
                return None;
            },
        }
        i = i + 1;
    }
    Some((users, place))
}

fn get_accounts(bytes: &[u8], at: usize, count: u64) -> (r: Option<(Vec<CheckingAccount>, usize)>)
    requires
        at <= bytes.len(),
    ensures
        match parse_accounts(bytes@.skip(at as int), count as nat) {
            Some((accounts, rest)) => {
                &&& r is Some
                &&& r.unwrap().0@ == accounts
                &&& at <= r.unwrap().1 <= bytes.len()
                &&& bytes@.skip(r.unwrap().1 as int) == rest
            },
            None => r is None,
        },
{
    let ghost input = bytes@.skip(at as int);
    let mut accounts: Vec<CheckingAccount> = Vec::new();
    let mut place: usize = at;
    let mut k: u64 = 0;
    while k < count
        invariant
            k <= count,
            at <= place <= bytes.len(),
            input == bytes@.skip(at as int),
            parse_accounts(input, k as nat) == Some((accounts@, bytes@.skip(place as int))),
        decreases count - k,
    {
        match get_account(bytes, place) {
            Some((account, next)) => {
                accounts.push(account);
                place = next;
            },
            None => {
                proof {
                    lemma_parse_accounts_fails(input, (k + 1) as nat, count as nat);
                }
                return None;
            },
        }
        k = k + 1;
    }
    Some((accounts, place))
}

/// Whether `bytes` begins with `magic`.
fn begins_with_magic(bytes: &[u8]) -> (b: bool)
    ensures
        b <==> bytes@.len() >= 8 && bytes@.take(8) == magic(),
{
    if bytes.len() < 8 {
        return false;
    }
    let b = bytes[0] == 0x4c && bytes[1] == 0x44 && bytes[2] == 0x47 && bytes[3] == 0x52
        && bytes[4] == 0x01 && bytes[5] == 0x00 && bytes[6] == 0x00 && bytes[7] == 0x00;
    proof {
        let head = bytes@.take(8);
        if b {
            assert(head =~= magic());
        } else {
            assert(head[0] == bytes[0] && head[1] == bytes[1] && head[2] == bytes[2] && head[3]
                == bytes[3] && head[4] == bytes[4] && head[5] == bytes[5] && head[6] == bytes[6]
                && head[7] == bytes[7]);
        }
    }
    b
}

/// Reads a snapshot from bytes. Refused with `CorruptStore` exactly where
/// the bytes hold no snapshot.
pub fn decode(bytes: &[u8]) -> (r: Result<Snapshot, Error>)
    ensures
        match decode_snapshot(bytes@) {
            Some(snapshot) => r is Ok && r.unwrap()@ == snapshot,
            None => r is Err && r->Err_0 == Error::CorruptStore,
        },
{
    if !begins_with_magic(bytes) {
        return Err(Error::CorruptStore);
    }
    let (user_count, at) = match get_u64(bytes, 8) {
        Some(found) => found,
        None => {
            return Err(Error::CorruptStore);
        },
    };
    let (users, at) = match get_users(bytes, at, user_count) {
        Some(found) => found,
        None => {
            return Err(Error::CorruptStore);
        },
    };
    let (account_count, at) = match get_u64(bytes, at) {
        Some(found) => found,
        None => {
            return Err(Error::CorruptStore);
        },
    };
    let (accounts, at) = match get_accounts(bytes, at, account_count) {
        Some(found) => found,
        None => {
            return Err(Error::CorruptStore);
        },
    };
    if at != bytes.len() {
        return Err(Error::CorruptStore);
    }
    Ok(Snapshot { users, accounts })
}

} // verus!
