//! The digests that bind a review to what was reviewed, and a request to what was asked.
use vstd::prelude::*;
use vstd::string::StringExecFns;

use crate::hashing::{
    append_bytes, append_hash, append_text, hash_bytes, hash_in_domain, hash_text, number_bytes,
    signed_bytes,
};
use crate::outside::uuid_text;
use crate::text::decimal;
use crate::time::{timestamp_micros, DatabaseScope, Instant, Uuid};

verus! {

/// A proposal of a review as it is stored: its identifier, its revision and the digest
/// of its payload.
#[derive(Clone, Copy, Debug)]
pub struct StoredPreviewMember {
    pub proposal_id: Uuid,
    pub proposal_revision: u64,
    pub payload_hash: [u8; 32],
}

/// Whether the microseconds of an instant fit eight bytes.
pub open spec fn micros_fit(value: Instant) -> bool {
    i64::MIN <= value as int / 1_000 <= i64::MAX
}

/// The bytes of an instant: its microseconds since the Unix epoch.
pub open spec fn instant_bytes(value: Instant) -> Seq<u8> {
    crate::hashing::be_bytes(crate::hashing::unsigned_of((value as int / 1_000) as i64), 8)
}

/// The byte of a flag.
pub open spec fn flag_byte(flag: bool) -> u8 {
    if flag {
        1
    } else {
        0
    }
}

/// The bytes of a member of a review.
pub open spec fn member_bytes(member: StoredPreviewMember) -> Seq<u8> {
    crate::hashing::be_bytes(member.proposal_id as nat, 16) + crate::hashing::be_bytes(
        member.proposal_revision as nat,
        8,
    ) + member.payload_hash@
}

/// The bytes of the members of a review, one after the other.
pub open spec fn members_bytes(members: Seq<StoredPreviewMember>) -> Seq<u8>
    decreases members.len(),
{
    if members.len() == 0 {
        Seq::empty()
    } else {
        members_bytes(members.drop_last()) + member_bytes(members.last())
    }
}

/// What of a review goes into its digest, other than its members.
pub ghost struct PreviewSeal {
    pub preview_id: Uuid,
    pub scope: DatabaseScope,
    pub command_count: u64,
    pub commands_hash: Seq<u8>,
    pub canonical_hash: Seq<u8>,
    pub review_content_hash: Seq<u8>,
    pub can_apply: bool,
    pub created_at: Instant,
    pub expires_at: Instant,
}

/// Whether the digests of a review are digests, and its instants fit.
pub open spec fn seal_fits(seal: PreviewSeal) -> bool {
    &&& seal.commands_hash.len() == 32
    &&& seal.canonical_hash.len() == 32
    &&& seal.review_content_hash.len() == 32
    &&& micros_fit(seal.created_at)
    &&& micros_fit(seal.expires_at)
}

/// The bytes of whom a review belongs to.
pub open spec fn owner_bytes(seal: PreviewSeal) -> Seq<u8> {
    vstd::utf8::encode_utf8("dayweave.proposal.preview.v2\0"@) + crate::hashing::be_bytes(
        seal.preview_id as nat,
        16,
    ) + crate::hashing::be_bytes(seal.scope.workspace_id as nat, 16) + crate::hashing::be_bytes(
        seal.scope.user_id as nat,
        16,
    )
}

/// The bytes of what was reviewed.
pub open spec fn content_bytes(seal: PreviewSeal) -> Seq<u8> {
    owner_bytes(seal) + crate::hashing::be_bytes(seal.command_count as nat, 8) + seal.commands_hash
        + seal.canonical_hash + seal.review_content_hash
}

/// The bytes of a review, other than those of its members.
pub open spec fn seal_bytes(seal: PreviewSeal) -> Seq<u8> {
    content_bytes(seal) + seq![flag_byte(seal.can_apply)] + instant_bytes(seal.created_at)
        + instant_bytes(seal.expires_at)
}

/// The bytes of a review.
pub open spec fn preview_bytes(seal: PreviewSeal, members: Seq<StoredPreviewMember>) -> Seq<u8> {
    seal_bytes(seal) + members_bytes(members)
}

/// The bytes of an instant.
fn bytes_of_instant(value: Instant) -> (result: Vec<u8>)
    requires
        micros_fit(value),
    ensures
        result@ == instant_bytes(value),
{
    let micros: i128 = timestamp_micros(value);
    signed_bytes(micros as i64)
}

fn append_number(target: &mut Vec<u8>, value: u128, count: usize)
    ensures
        final(target)@ == old(target)@ + crate::hashing::be_bytes(value as nat, count as nat),
{
    let bytes: Vec<u8> = number_bytes(value, count);
    append_bytes(target, &bytes);
}

/// The digest that binds a review to its owner, its members, its commands, the items
/// that it was made against, what was shown, and its life time.
pub fn calculate_preview_hash(
    preview_id: Uuid,
    scope: DatabaseScope,
    members: &Vec<StoredPreviewMember>,
    command_count: usize,
    commands_hash: &[u8; 32],
    canonical_hash: &[u8; 32],
    review_content_hash: &[u8; 32],
    can_apply: bool,
    created_at: Instant,
    expires_at: Instant,
) -> (result: [u8; 32])
    requires
        micros_fit(created_at),
        micros_fit(expires_at),
    ensures
        result@ == crate::outside::sha256_of(
            preview_bytes(
                PreviewSeal {
                    preview_id,
                    scope,
                    command_count: command_count as u64,
                    commands_hash: commands_hash@,
                    canonical_hash: canonical_hash@,
                    review_content_hash: review_content_hash@,
                    can_apply,
                    created_at,
                    expires_at,
                },
                members@,
            ),
        ),
{
    let ghost seal = PreviewSeal {
        preview_id,
        scope,
        command_count: command_count as u64,
        commands_hash: commands_hash@,
        canonical_hash: canonical_hash@,
        review_content_hash: review_content_hash@,
        can_apply,
        created_at,
        expires_at,
    };
    let mut bytes: Vec<u8> = Vec::new();
    append_text(&mut bytes, "dayweave.proposal.preview.v2\0");
    assert(bytes@ =~= vstd::utf8::encode_utf8("dayweave.proposal.preview.v2\0"@));
    append_number(&mut bytes, preview_id, 16);
    append_number(&mut bytes, scope.workspace_id, 16);
    append_number(&mut bytes, scope.user_id, 16);
    assert(bytes@ == owner_bytes(seal));
    append_number(&mut bytes, command_count as u128, 8);
    append_hash(&mut bytes, commands_hash);
    append_hash(&mut bytes, canonical_hash);
    append_hash(&mut bytes, review_content_hash);
    assert(bytes@ == content_bytes(seal));
    let flag: u8 = if can_apply {
        1
    } else {
        0
    };
    bytes.push(flag);
    assert(bytes@ =~= content_bytes(seal) + seq![flag_byte(can_apply)]);
    let created: Vec<u8> = bytes_of_instant(created_at);
    append_bytes(&mut bytes, &created);
    let expires: Vec<u8> = bytes_of_instant(expires_at);
    append_bytes(&mut bytes, &expires);
    assert(bytes@ == seal_bytes(seal));
    let mut i: usize = 0;
    assert(members@.take(0).len() == 0);
    assert(bytes@ =~= seal_bytes(seal) + members_bytes(members@.take(0)));
    while i < members.len()
        invariant
            i <= members.len(),
            bytes@ == seal_bytes(seal) + members_bytes(members@.take(i as int)),
        decreases members.len() - i,
    {
        let member: &StoredPreviewMember = &members[i];
        let ghost before = bytes@;
        append_number(&mut bytes, member.proposal_id, 16);
        append_number(&mut bytes, member.proposal_revision as u128, 8);
        append_hash(&mut bytes, &member.payload_hash);
        proof {
            assert(bytes@ =~= before + member_bytes(members@[i as int]));
            assert(members@.take(i + 1).drop_last() =~= members@.take(i as int));
            assert(members@.take(i + 1).last() == members@[i as int]);
            assert(bytes@ =~= seal_bytes(seal) + members_bytes(members@.take(i + 1)));
        }
        i = i + 1;
    }
    assert(members@.take(i as int) =~= members@);
    hash_bytes(&bytes)
}

proof fn lemma_same_tail(a: Seq<u8>, b: Seq<u8>, x: Seq<u8>, y: Seq<u8>)
    requires
        a + x == b + y,
        x.len() == y.len(),
    ensures
        a == b,
        x == y,
{
    let left = a + x;
    let right = b + y;
    assert(left == right);
    assert(left.len() == a.len() + x.len());
    assert(right.len() == b.len() + y.len());
    assert(a =~= left.take(a.len() as int));
    assert(b =~= right.take(b.len() as int));
    assert(x =~= left.skip(a.len() as int));
    assert(y =~= right.skip(b.len() as int));
}

proof fn lemma_members_length(members: Seq<StoredPreviewMember>)
    ensures
        members_bytes(members).len() == 56 * members.len(),
    decreases members.len(),
{
    if members.len() > 0 {
        lemma_members_length(members.drop_last());
        crate::hashing::be_bytes_length(members.last().proposal_id as nat, 16);
        crate::hashing::be_bytes_length(members.last().proposal_revision as nat, 8);
        assert(members.last().payload_hash@.len() == 32);
    }
}

proof fn lemma_seal_length(seal: PreviewSeal)
    requires
        seal_fits(seal),
    ensures
        seal_bytes(seal).len() == vstd::utf8::encode_utf8("dayweave.proposal.preview.v2\0"@).len()
            + 169,
{
    crate::hashing::be_bytes_length(seal.preview_id as nat, 16);
    crate::hashing::be_bytes_length(seal.scope.workspace_id as nat, 16);
    crate::hashing::be_bytes_length(seal.scope.user_id as nat, 16);
    crate::hashing::be_bytes_length(seal.command_count as nat, 8);
    lemma_instant_length(seal.created_at);
    lemma_instant_length(seal.expires_at);
}

proof fn lemma_instant_length(value: Instant)
    ensures
        instant_bytes(value).len() == 8,
{
    crate::hashing::be_bytes_length(
        crate::hashing::unsigned_of((value as int / 1_000) as i64),
        8,
    );
}

proof fn lemma_powers()
    ensures
        vstd::arithmetic::power::pow(256, 8) == 0x1_0000_0000_0000_0000,
        vstd::arithmetic::power::pow(256, 16) == 0x1_0000_0000_0000_0000_0000_0000_0000_0000,
{
    reveal(vstd::arithmetic::power::pow);
    assert(vstd::arithmetic::power::pow(256, 4) == 0x1_0000_0000) by {
        reveal_with_fuel(vstd::arithmetic::power::pow, 5);
    }
    vstd::arithmetic::power::lemma_pow_adds(256, 4, 4);
    vstd::arithmetic::power::lemma_pow_adds(256, 8, 8);
    let half = vstd::arithmetic::power::pow(256, 8);
    assert(half * half == 0x1_0000_0000_0000_0000_0000_0000_0000_0000) by (nonlinear_arith)
        requires
            half == 0x1_0000_0000_0000_0000,
    ;
}

proof fn lemma_same_member(a: StoredPreviewMember, b: StoredPreviewMember)
    requires
        member_bytes(a) == member_bytes(b),
    ensures
        a.proposal_id == b.proposal_id,
        a.proposal_revision == b.proposal_revision,
        a.payload_hash@ == b.payload_hash@,
{
    crate::hashing::be_bytes_length(a.proposal_id as nat, 16);
    crate::hashing::be_bytes_length(b.proposal_id as nat, 16);
    crate::hashing::be_bytes_length(a.proposal_revision as nat, 8);
    crate::hashing::be_bytes_length(b.proposal_revision as nat, 8);
    let a_id = crate::hashing::be_bytes(a.proposal_id as nat, 16);
    let b_id = crate::hashing::be_bytes(b.proposal_id as nat, 16);
    let a_revision = crate::hashing::be_bytes(a.proposal_revision as nat, 8);
    let b_revision = crate::hashing::be_bytes(b.proposal_revision as nat, 8);
    assert(a.payload_hash@.len() == 32 && b.payload_hash@.len() == 32);
    lemma_same_tail(a_id + a_revision, b_id + b_revision, a.payload_hash@, b.payload_hash@);
    lemma_same_tail(a_id, b_id, a_revision, b_revision);
    lemma_powers();
    crate::hashing::be_bytes_injective(a.proposal_id as nat, b.proposal_id as nat, 16);
    crate::hashing::be_bytes_injective(a.proposal_revision as nat, b.proposal_revision as nat, 8);
}

proof fn lemma_same_members(a: Seq<StoredPreviewMember>, b: Seq<StoredPreviewMember>)
    requires
        a.len() == b.len(),
        members_bytes(a) == members_bytes(b),
    ensures
        forall|k: int|
            0 <= k < a.len() ==> (#[trigger] a[k]).proposal_id == b[k].proposal_id
                && a[k].proposal_revision == b[k].proposal_revision && a[k].payload_hash@
                == b[k].payload_hash@,
    decreases a.len(),
{
    if a.len() > 0 {
        lemma_members_length(a.drop_last());
        lemma_members_length(b.drop_last());
        lemma_members_length(a);
        lemma_members_length(b);
        lemma_same_tail(
            members_bytes(a.drop_last()),
            members_bytes(b.drop_last()),
            member_bytes(a.last()),
            member_bytes(b.last()),
        );
        lemma_same_member(a.last(), b.last());
        lemma_same_members(a.drop_last(), b.drop_last());
        assert forall|k: int| 0 <= k < a.len() implies (#[trigger] a[k]).proposal_id
            == b[k].proposal_id && a[k].proposal_revision == b[k].proposal_revision
            && a[k].payload_hash@ == b[k].payload_hash@ by {
            if k < a.len() - 1 {
                assert(a[k] == a.drop_last()[k]);
                assert(b[k] == b.drop_last()[k]);
            }
        }
    }
}

proof fn lemma_same_instant(a: Instant, b: Instant)
    requires
        micros_fit(a),
        micros_fit(b),
        instant_bytes(a) == instant_bytes(b),
    ensures
        a as int / 1_000 == b as int / 1_000,
{
    lemma_powers();
    crate::hashing::be_bytes_injective(
        crate::hashing::unsigned_of((a as int / 1_000) as i64),
        crate::hashing::unsigned_of((b as int / 1_000) as i64),
        8,
    );
}

proof fn lemma_same_owner(a: PreviewSeal, b: PreviewSeal)
    requires
        owner_bytes(a) == owner_bytes(b),
    ensures
        a.preview_id == b.preview_id,
        a.scope == b.scope,
{
    let name = vstd::utf8::encode_utf8("dayweave.proposal.preview.v2\0"@);
    let a_id = crate::hashing::be_bytes(a.preview_id as nat, 16);
    let b_id = crate::hashing::be_bytes(b.preview_id as nat, 16);
    let a_workspace = crate::hashing::be_bytes(a.scope.workspace_id as nat, 16);
    let b_workspace = crate::hashing::be_bytes(b.scope.workspace_id as nat, 16);
    let a_user = crate::hashing::be_bytes(a.scope.user_id as nat, 16);
    let b_user = crate::hashing::be_bytes(b.scope.user_id as nat, 16);
    crate::hashing::be_bytes_length(a.preview_id as nat, 16);
    crate::hashing::be_bytes_length(b.preview_id as nat, 16);
    crate::hashing::be_bytes_length(a.scope.workspace_id as nat, 16);
    crate::hashing::be_bytes_length(b.scope.workspace_id as nat, 16);
    crate::hashing::be_bytes_length(a.scope.user_id as nat, 16);
    crate::hashing::be_bytes_length(b.scope.user_id as nat, 16);
    lemma_same_tail(name + a_id + a_workspace, name + b_id + b_workspace, a_user, b_user);
    lemma_same_tail(name + a_id, name + b_id, a_workspace, b_workspace);
    lemma_same_tail(name, name, a_id, b_id);
    lemma_powers();
    crate::hashing::be_bytes_injective(a.preview_id as nat, b.preview_id as nat, 16);
    crate::hashing::be_bytes_injective(
        a.scope.workspace_id as nat,
        b.scope.workspace_id as nat,
        16,
    );
    crate::hashing::be_bytes_injective(a.scope.user_id as nat, b.scope.user_id as nat, 16);
}

proof fn lemma_same_content(a: PreviewSeal, b: PreviewSeal)
    requires
        seal_fits(a),
        seal_fits(b),
        content_bytes(a) == content_bytes(b),
    ensures
        a.preview_id == b.preview_id,
        a.scope == b.scope,
        a.command_count == b.command_count,
        a.commands_hash == b.commands_hash,
        a.canonical_hash == b.canonical_hash,
        a.review_content_hash == b.review_content_hash,
{
    let a_count = crate::hashing::be_bytes(a.command_count as nat, 8);
    let b_count = crate::hashing::be_bytes(b.command_count as nat, 8);
    crate::hashing::be_bytes_length(a.command_count as nat, 8);
    crate::hashing::be_bytes_length(b.command_count as nat, 8);
    let a_owner = owner_bytes(a);
    let b_owner = owner_bytes(b);
    lemma_same_tail(
        a_owner + a_count + a.commands_hash + a.canonical_hash,
        b_owner + b_count + b.commands_hash + b.canonical_hash,
        a.review_content_hash,
        b.review_content_hash,
    );
    lemma_same_tail(
        a_owner + a_count + a.commands_hash,
        b_owner + b_count + b.commands_hash,
        a.canonical_hash,
        b.canonical_hash,
    );
    lemma_same_tail(a_owner + a_count, b_owner + b_count, a.commands_hash, b.commands_hash);
    lemma_same_tail(a_owner, b_owner, a_count, b_count);
    lemma_powers();
    crate::hashing::be_bytes_injective(a.command_count as nat, b.command_count as nat, 8);
    lemma_same_owner(a, b);
}

/// What is digested of a review tells it apart from every other one: where it is the
/// same, the owner, the commands, the items that the review was made against, what was
/// shown, the life time to the microsecond and every proposal with its revision and
/// payload are the same.
pub proof fn preview_bytes_bind_the_review(
    a: PreviewSeal,
    a_members: Seq<StoredPreviewMember>,
    b: PreviewSeal,
    b_members: Seq<StoredPreviewMember>,
)
    requires
        seal_fits(a),
        seal_fits(b),
        preview_bytes(a, a_members) == preview_bytes(b, b_members),
    ensures
        a.preview_id == b.preview_id,
        a.scope == b.scope,
        a.command_count == b.command_count,
        a.commands_hash == b.commands_hash,
        a.canonical_hash == b.canonical_hash,
        a.review_content_hash == b.review_content_hash,
        a.can_apply == b.can_apply,
        a.created_at as int / 1_000 == b.created_at as int / 1_000,
        a.expires_at as int / 1_000 == b.expires_at as int / 1_000,
        a_members.len() == b_members.len(),
        forall|k: int|
            0 <= k < a_members.len() ==> (#[trigger] a_members[k]).proposal_id
                == b_members[k].proposal_id && a_members[k].proposal_revision
                == b_members[k].proposal_revision && a_members[k].payload_hash@
                == b_members[k].payload_hash@,
{
    lemma_seal_length(a);
    lemma_seal_length(b);
    lemma_members_length(a_members);
    lemma_members_length(b_members);
    let left = preview_bytes(a, a_members);
    let right = preview_bytes(b, b_members);
    assert(left.len() == seal_bytes(a).len() + members_bytes(a_members).len());
    assert(right.len() == seal_bytes(b).len() + members_bytes(b_members).len());
    lemma_same_tail(
        seal_bytes(a),
        seal_bytes(b),
        members_bytes(a_members),
        members_bytes(b_members),
    );
    lemma_same_members(a_members, b_members);
    lemma_instant_length(a.created_at);
    lemma_instant_length(b.created_at);
    lemma_instant_length(a.expires_at);
    lemma_instant_length(b.expires_at);
    let a_flag = seq![flag_byte(a.can_apply)];
    let b_flag = seq![flag_byte(b.can_apply)];
    lemma_same_tail(
        content_bytes(a) + a_flag + instant_bytes(a.created_at),
        content_bytes(b) + b_flag + instant_bytes(b.created_at),
        instant_bytes(a.expires_at),
        instant_bytes(b.expires_at),
    );
    lemma_same_tail(
        content_bytes(a) + a_flag,
        content_bytes(b) + b_flag,
        instant_bytes(a.created_at),
        instant_bytes(b.created_at),
    );
    lemma_same_tail(content_bytes(a), content_bytes(b), a_flag, b_flag);
    assert(a_flag[0] == b_flag[0]);
    lemma_same_instant(a.created_at, b.created_at);
    lemma_same_instant(a.expires_at, b.expires_at);
    lemma_same_content(a, b);
}

/// An item as far as a review depends on it: whether it is still the same.
#[derive(Clone, Copy, Debug, PartialEq, Eq, Structural)]
pub struct CanonicalItemRow {
    pub id: Uuid,
    pub revision: i64,
    pub deleted: bool,
}

/// The bytes of the items that a review was made against.
pub open spec fn canonical_rows_bytes(rows: Seq<CanonicalItemRow>) -> Seq<u8>
    decreases rows.len(),
{
    if rows.len() == 0 {
        Seq::empty()
    } else {
        canonical_rows_bytes(rows.drop_last()) + (crate::hashing::be_bytes(
            rows.last().id as nat,
            16,
        ) + crate::hashing::be_bytes(crate::hashing::unsigned_of(rows.last().revision), 8) + seq![
            flag_byte(rows.last().deleted),
        ])
    }
}

/// The bytes of identifiers, one after the other.
pub open spec fn ids_bytes(ids: Seq<Uuid>) -> Seq<u8>
    decreases ids.len(),
{
    if ids.len() == 0 {
        Seq::empty()
    } else {
        ids_bytes(ids.drop_last()) + crate::hashing::be_bytes(ids.last() as nat, 16)
    }
}

/// The bytes of what a review was made against: every item of the workspace, and which
/// of them an external calendar manages.
pub open spec fn canonical_bytes(
    workspace_id: Uuid,
    rows: Seq<CanonicalItemRow>,
    managed: Seq<Uuid>,
) -> Seq<u8> {
    vstd::utf8::encode_utf8("dayweave.proposal.canonical-items.v2\0items\0"@)
        + crate::hashing::be_bytes(workspace_id as nat, 16) + canonical_rows_bytes(rows)
        + vstd::utf8::encode_utf8("\0provider-managed-items\0"@) + ids_bytes(managed)
}

/// The digest of what a review was made against. `rows` and `managed` are in the order
/// of the identifiers.
pub fn canonical_item_hash(
    workspace_id: Uuid,
    rows: &Vec<CanonicalItemRow>,
    managed: &Vec<Uuid>,
) -> (result: [u8; 32])
    ensures
        result@ == crate::outside::sha256_of(canonical_bytes(workspace_id, rows@, managed@)),
{
    let mut bytes: Vec<u8> = Vec::new();
    append_text(&mut bytes, "dayweave.proposal.canonical-items.v2\0items\0");
    append_number(&mut bytes, workspace_id, 16);
    let ghost opening = vstd::utf8::encode_utf8("dayweave.proposal.canonical-items.v2\0items\0"@)
        + crate::hashing::be_bytes(workspace_id as nat, 16);
    assert(rows@.take(0).len() == 0);
    assert(bytes@ =~= opening + canonical_rows_bytes(rows@.take(0)));
    let mut i: usize = 0;
    while i < rows.len()
        invariant
            i <= rows.len(),
            bytes@ == opening + canonical_rows_bytes(rows@.take(i as int)),
        decreases rows.len() - i,
    {
        let row: CanonicalItemRow = rows[i];
        append_number(&mut bytes, row.id, 16);
        let revision: Vec<u8> = signed_bytes(row.revision);
        append_bytes(&mut bytes, &revision);
        let flag: u8 = if row.deleted {
            1
        } else {
            0
        };
        bytes.push(flag);
        proof {
            assert(rows@.take(i + 1).drop_last() =~= rows@.take(i as int));
            assert(rows@.take(i + 1).last() == row);
            assert(bytes@ =~= opening + canonical_rows_bytes(rows@.take(i + 1)));
        }
        i = i + 1;
    }
    assert(rows@.take(i as int) =~= rows@);
    append_text(&mut bytes, "\0provider-managed-items\0");
    let ghost middle = bytes@;
    assert(managed@.take(0).len() == 0);
    assert(bytes@ =~= middle + ids_bytes(managed@.take(0)));
    let mut i: usize = 0;
    while i < managed.len()
        invariant
            i <= managed.len(),
            bytes@ == middle + ids_bytes(managed@.take(i as int)),
        decreases managed.len() - i,
    {
        append_number(&mut bytes, managed[i], 16);
        proof {
            assert(managed@.take(i + 1).drop_last() =~= managed@.take(i as int));
            assert(managed@.take(i + 1).last() == managed@[i as int]);
            assert(bytes@ =~= middle + ids_bytes(managed@.take(i + 1)));
        }
        i = i + 1;
    }
    assert(managed@.take(i as int) =~= managed@);
    assert(bytes@ == canonical_bytes(workspace_id, rows@, managed@));
    hash_bytes(&bytes)
}

/// The digest of what a review shows.
pub fn review_content_hash(document: &Vec<u8>) -> (result: [u8; 32])
    ensures
        result@ == crate::outside::sha256_of(
            vstd::utf8::encode_utf8("dayweave.proposal.review-content.v1\0"@) + document@,
        ),
{
    hash_in_domain("dayweave.proposal.review-content.v1\0", document)
}

/// The digest of a former or new state of an item.
pub open spec fn snapshot_digest(document: Seq<u8>) -> Seq<u8> {
    crate::outside::sha256_of(
        vstd::utf8::encode_utf8("dayweave.proposal.item-snapshot.v1\0"@) + document,
    )
}

/// The digest of a former or new state of an item.
pub fn snapshot_hash(document: &Vec<u8>) -> (result: [u8; 32])
    ensures
        result@ == snapshot_digest(document@),
{
    hash_in_domain("dayweave.proposal.item-snapshot.v1\0", document)
}

/// The bytes of a request to apply a review.
pub open spec fn apply_request_bytes(preview_id: Uuid, expected_hash: Seq<u8>) -> Seq<u8> {
    vstd::utf8::encode_utf8("dayweave.proposal.apply.v1\0"@) + crate::hashing::be_bytes(
        preview_id as nat,
        16,
    ) + expected_hash
}

/// The digest of a request to apply a review.
pub fn apply_request_hash(preview_id: Uuid, expected_hash: &[u8; 32]) -> (result: [u8; 32])
    ensures
        result@ == crate::outside::sha256_of(apply_request_bytes(preview_id, expected_hash@)),
{
    let mut bytes: Vec<u8> = Vec::new();
    append_text(&mut bytes, "dayweave.proposal.apply.v1\0");
    assert(bytes@ =~= vstd::utf8::encode_utf8("dayweave.proposal.apply.v1\0"@));
    append_number(&mut bytes, preview_id, 16);
    append_hash(&mut bytes, expected_hash);
    hash_bytes(&bytes)
}

/// Requests to apply differ in what is digested of them, unless they are for the same
/// review and name the same digest.
pub proof fn apply_requests_differ(
    a_preview: Uuid,
    a_hash: Seq<u8>,
    b_preview: Uuid,
    b_hash: Seq<u8>,
)
    requires
        a_hash.len() == 32,
        b_hash.len() == 32,
        apply_request_bytes(a_preview, a_hash) == apply_request_bytes(b_preview, b_hash),
    ensures
        a_preview == b_preview,
        a_hash == b_hash,
{
    let name = vstd::utf8::encode_utf8("dayweave.proposal.apply.v1\0"@);
    let a_id = crate::hashing::be_bytes(a_preview as nat, 16);
    let b_id = crate::hashing::be_bytes(b_preview as nat, 16);
    crate::hashing::be_bytes_length(a_preview as nat, 16);
    crate::hashing::be_bytes_length(b_preview as nat, 16);
    lemma_same_tail(name + a_id, name + b_id, a_hash, b_hash);
    lemma_same_tail(name, name, a_id, b_id);
    lemma_powers();
    crate::hashing::be_bytes_injective(a_preview as nat, b_preview as nat, 16);
}

/// The text of a request to undo an application.
pub open spec fn undo_request_text(application_id: Uuid, revision: u64) -> Seq<char> {
    "dayweave.proposal.undo.v1:"@ + crate::outside::text_of_uuid(application_id) + ":"@
        + crate::text::decimal_text(revision as nat)
}

/// The digest of a request to undo an application.
pub fn undo_request_hash(application_id: Uuid, revision: u64) -> (result: [u8; 32])
    ensures
        result@ == crate::outside::sha256_of(
            vstd::utf8::encode_utf8(undo_request_text(application_id, revision)),
        ),
{
    let mut text: String = "dayweave.proposal.undo.v1:".to_owned();
    let id: String = uuid_text(application_id);
    text.append(id.as_str());
    text.append(":");
    let number: String = decimal(revision);
    text.append(number.as_str());
    assert(text@ == undo_request_text(application_id, revision));
    hash_text(text.as_str())
}

} // verus!
