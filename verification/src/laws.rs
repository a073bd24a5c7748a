//! What Make, Take and Refund achieve on a ledger.
use crate::account::Account;
use crate::make::{Make, ESCROW_RENT};
use crate::model::{
    lemma_run_changes_only_writes, lemma_step_keeps_frame, LedgerState, TOKEN_ACCOUNT_RENT,
};
use crate::pubkey::{lemma_pubkey_view_injective, token_program_id, SYSTEM_PROGRAM_ID};
use crate::refund::Refund;
use crate::take::Take;
use crate::state::{lemma_record_layout, ESCROW_LEN};
use crate::step::{Authority, Step};
use crate::token::{
    lemma_pack_fields, lemma_with_amount_fields, spec_amount, spec_mint, spec_owner,
};
use pinocchio::program_error::ProgramError;
use pinocchio::pubkey::Pubkey;
use vstd::prelude::*;

verus! {

/// Running a list of steps is running its first step and then the rest.
pub proof fn lemma_run_first(state: LedgerState, first: Step, rest: Seq<Step>)
    ensures
        state.run(seq![first] + rest) == match state.step(first) {
            Ok(next) => next.run(rest),
            Err(e) => Err(e),
        },
{
    let steps = seq![first] + rest;
    assert(steps.subrange(1, steps.len() as int) =~= rest);
}

/// Running no step changes nothing.
pub proof fn lemma_run_none(state: LedgerState)
    ensures
        state.run(Seq::<Step>::empty()) == Ok::<LedgerState, ProgramError>(state),
{
}

/// The account handed to an instruction shows the ledger's account at its
/// address.
pub open spec fn snapshot_of(account: Account, state: LedgerState) -> bool {
    &&& state.has(account.key)
    &&& state.accounts[account.key].owner == account.owner
    &&& state.accounts[account.key].data == account.data@
}

/// The ledger is ready for `make`: the maker signed and can pay both rent
/// deposits, the escrow address is unallocated and derived from the offer's
/// seed material, the vault is unallocated and another address, the
/// offered mint is a mint, the maker's holding account holds that mint for
/// the maker with at least the deposit, and the two programs named are the
/// system program and the token program.
pub open spec fn make_ready(state: LedgerState, make: Make) -> bool {
    let named = make.accounts;
    &&& state.has(named.maker.key)
    &&& state.has(named.escrow.key)
    &&& state.has(named.vault.key)
    &&& state.has(named.mint_a.key)
    &&& state.has(named.maker_ata_a.key)
    &&& named.escrow.key != named.vault.key
    &&& state.accounts[named.maker.key].is_signer
    &&& state.accounts[named.maker.key].lamports >= ESCROW_RENT + TOKEN_ACCOUNT_RENT
    &&& state.accounts[named.escrow.key].unallocated()
    &&& state.accounts[named.escrow.key].seeds == Some(make.spec_seeds())
    &&& state.accounts[named.vault.key].unallocated()
    &&& state.accounts[named.mint_a.key].is_mint()
    &&& state.accounts[named.maker_ata_a.key].is_token()
    &&& spec_owner(state.accounts[named.maker_ata_a.key].data) == named.maker.key@
    &&& spec_mint(state.accounts[named.maker_ata_a.key].data) == named.mint_a.key@
    &&& spec_amount(state.accounts[named.maker_ata_a.key].data) >= make.instruction_data.amount
    &&& named.system_program.key == SYSTEM_PROGRAM_ID
    &&& named.token_program.key@ == token_program_id()
}

/// The states that a Make passes through, when it succeeds.
proof fn lemma_make_unfolds(before: LedgerState, make: Make, after: LedgerState) -> (mid: (
    LedgerState,
    LedgerState,
    LedgerState,
))
    requires
        before.run(make.spec_steps(before.program_id)) == Ok::<LedgerState, ProgramError>(after),
    ensures
        before.step(make.spec_steps(before.program_id)[0]) == Ok::<LedgerState, ProgramError>(
            mid.0,
        ),
        mid.0.step(make.spec_steps(before.program_id)[1]) == Ok::<LedgerState, ProgramError>(
            mid.1,
        ),
        mid.1.step(make.spec_steps(before.program_id)[2]) == Ok::<LedgerState, ProgramError>(
            mid.2,
        ),
        mid.2.step(make.spec_steps(before.program_id)[3]) == Ok::<LedgerState, ProgramError>(
            after,
        ),
{
    let steps = make.spec_steps(before.program_id);
    assert(steps =~= seq![steps[0]] + seq![steps[1], steps[2], steps[3]]);
    lemma_run_first(before, steps[0], seq![steps[1], steps[2], steps[3]]);
    let s1 = before.step(steps[0])->Ok_0;
    assert(seq![steps[1], steps[2], steps[3]] =~= seq![steps[1]] + seq![steps[2], steps[3]]);
    lemma_run_first(s1, steps[1], seq![steps[2], steps[3]]);
    let s2 = s1.step(steps[1])->Ok_0;
    assert(seq![steps[2], steps[3]] =~= seq![steps[2]] + seq![steps[3]]);
    lemma_run_first(s2, steps[2], seq![steps[3]]);
    let s3 = s2.step(steps[2])->Ok_0;
    assert(seq![steps[3]] =~= seq![steps[3]] + Seq::<Step>::empty());
    lemma_run_first(s3, steps[3], Seq::<Step>::empty());
    lemma_run_none(s3.step(steps[3])->Ok_0);
    (s1, s2, s3)
}

/// After Make the offer is open: the escrow address, derived from the
/// offer's seed material, holds a protocol-owned record whose fields are
/// exactly the inputs; the vault is a token account of the offered mint held
/// by the escrow address; the vault's balance has grown by the deposit and
/// the maker's holding account has shrunk by it. A vault that did not exist
/// before therefore holds exactly the deposit.
pub proof fn law_make_opens_offer(before: LedgerState, make: Make, after: LedgerState)
    requires
        before.wf(),
        before.run(make.spec_steps(before.program_id)) == Ok::<LedgerState, ProgramError>(after),
    ensures
        after.has(make.accounts.escrow.key),
        after.accounts[make.accounts.escrow.key].owner == before.program_id,
        after.accounts[make.accounts.escrow.key].seeds == Some(make.spec_seeds()),
        after.accounts[make.accounts.escrow.key].data == make.spec_record().spec_bytes(),
        after.has(make.accounts.vault.key),
        after.accounts[make.accounts.vault.key].is_token(),
        spec_owner(after.accounts[make.accounts.vault.key].data) == make.accounts.escrow.key@,
        spec_mint(after.accounts[make.accounts.vault.key].data) == make.accounts.mint_a.key@,
        after.accounts[make.accounts.vault.key].balance()
            == before.accounts[make.accounts.vault.key].balance() + make.instruction_data.amount,
        after.has(make.accounts.maker_ata_a.key),
        after.accounts[make.accounts.maker_ata_a.key].balance()
            == before.accounts[make.accounts.maker_ata_a.key].balance()
            - make.instruction_data.amount,
        after.wf(),
        after.program_id == before.program_id,
{
    let steps = make.spec_steps(before.program_id);
    let maker = make.accounts.maker.key;
    let escrow = make.accounts.escrow.key;
    let vault = make.accounts.vault.key;
    let source = make.accounts.maker_ata_a.key;
    let amount = make.instruction_data.amount;
    let (s1, s2, s3) = lemma_make_unfolds(before, make, after);
    lemma_step_keeps_frame(before, steps[0]);
    lemma_step_keeps_frame(s1, steps[1]);
    lemma_step_keeps_frame(s2, steps[2]);
    lemma_step_keeps_frame(s3, steps[3]);
    lemma_pubkey_view_injective(maker, escrow);
    lemma_pack_fields(make.accounts.mint_a.key, escrow, 0);
    lemma_record_layout(make.spec_record());
    lemma_with_amount_fields(
        s3.accounts[vault].data,
        (spec_amount(s3.accounts[vault].data) + amount) as u64,
    );
    lemma_with_amount_fields(
        s3.accounts[source].data,
        (spec_amount(s3.accounts[source].data) - amount) as u64,
    );
}

/// On a ledger that is ready for it, Make succeeds.
pub proof fn law_make_succeeds(before: LedgerState, make: Make)
    requires
        before.wf(),
        make_ready(before, make),
    ensures
        before.run(make.spec_steps(before.program_id)) is Ok,
{
    let steps = make.spec_steps(before.program_id);
    let maker = make.accounts.maker.key;
    let escrow = make.accounts.escrow.key;
    assert(steps =~= seq![steps[0]] + seq![steps[1], steps[2], steps[3]]);
    lemma_run_first(before, steps[0], seq![steps[1], steps[2], steps[3]]);
    let s1 = before.step(steps[0])->Ok_0;
    assert(before.step(steps[0]) is Ok);
    assert(seq![steps[1], steps[2], steps[3]] =~= seq![steps[1]] + seq![steps[2], steps[3]]);
    lemma_run_first(s1, steps[1], seq![steps[2], steps[3]]);
    assert(s1.step(steps[1]) is Ok);
    let s2 = s1.step(steps[1])->Ok_0;
    assert(seq![steps[2], steps[3]] =~= seq![steps[2]] + seq![steps[3]]);
    lemma_run_first(s2, steps[2], seq![steps[3]]);
    assert(s2.step(steps[2]) is Ok);
    let s3 = s2.step(steps[2])->Ok_0;
    assert(seq![steps[3]] =~= seq![steps[3]] + Seq::<Step>::empty());
    lemma_run_first(s3, steps[3], Seq::<Step>::empty());
    lemma_pack_fields(make.accounts.mint_a.key, escrow, 0);
    lemma_pubkey_view_injective(maker, escrow);
    assert(s3.step(steps[3]) is Ok);
    lemma_run_none(s3.step(steps[3])->Ok_0);
}

/// Creating a holding account that exists already, with the holder and the
/// mint asked for, changes nothing: nothing is created twice.
pub proof fn law_existing_holding_account_is_kept(
    state: LedgerState,
    funding_account: Pubkey,
    account: Pubkey,
    wallet: Pubkey,
    mint: Pubkey,
    system_program: Pubkey,
    token_program: Pubkey,
)
    requires
        state.has(account),
        state.accounts[account].is_token(),
    ensures
        ({
            let outcome = state.create_idempotent(
                funding_account,
                account,
                wallet,
                mint,
                system_program,
                token_program,
            );
            outcome is Ok ==> outcome == Ok::<LedgerState, ProgramError>(state)
        }),
{
}

/// The states that a refund passes through, when it succeeds.
proof fn lemma_refund_unfolds(before: LedgerState, refund: Refund, after: LedgerState) -> (mid: (
    LedgerState,
    LedgerState,
    LedgerState,
))
    requires
        before.run(refund.spec_steps()) == Ok::<LedgerState, ProgramError>(after),
    ensures
        before.create_idempotent(
            refund.maker.key,
            refund.maker_ata_a.key,
            refund.maker.key,
            refund.mint_a.key,
            refund.system_program.key,
            refund.token_program.key,
        ) == Ok::<LedgerState, ProgramError>(mid.0),
        spec_amount(refund.vault.data@) > 0 ==> mid.0.transfer(
            refund.vault.key,
            refund.maker_ata_a.key,
            refund.spec_authority(),
            spec_amount(refund.vault.data@),
        ) == Ok::<LedgerState, ProgramError>(mid.1),
        spec_amount(refund.vault.data@) == 0 ==> mid.1 == mid.0,
        mid.1.close_account(refund.vault.key, refund.maker.key, refund.spec_authority()) == Ok::<
            LedgerState,
            ProgramError,
        >(mid.2),
        mid.2.close_program_account(refund.escrow.key, refund.maker.key) == Ok::<
            LedgerState,
            ProgramError,
        >(after),
{
    let steps = refund.spec_steps();
    let amount = spec_amount(refund.vault.data@);
    let n = steps.len() as int;
    let close = seq![steps[n - 2], steps[n - 1]];
    let s0 = before.step(steps[0])->Ok_0;
    if amount > 0 {
        assert(steps =~= seq![steps[0]] + seq![steps[1], steps[2], steps[3]]);
        lemma_run_first(before, steps[0], seq![steps[1], steps[2], steps[3]]);
        assert(seq![steps[1], steps[2], steps[3]] =~= seq![steps[1]] + close);
        lemma_run_first(s0, steps[1], close);
    } else {
        assert(steps =~= seq![steps[0]] + close);
        lemma_run_first(before, steps[0], close);
    }
    let s1 = if amount > 0 {
        s0.step(steps[1])->Ok_0
    } else {
        s0
    };
    assert(close =~= seq![steps[n - 2]] + seq![steps[n - 1]]);
    lemma_run_first(s1, steps[n - 2], seq![steps[n - 1]]);
    let s2 = s1.step(steps[n - 2])->Ok_0;
    assert(seq![steps[n - 1]] =~= seq![steps[n - 1]] + Seq::<Step>::empty());
    lemma_run_first(s2, steps[n - 1], Seq::<Step>::empty());
    lemma_run_none(s2.step(steps[n - 1])->Ok_0);
    (s0, s1, s2)
}

/// After Refund the offer is gone: the escrow record and the vault are
/// unallocated, and the maker's holding account has grown by exactly what
/// the vault held.
pub proof fn law_refund_closes_offer(before: LedgerState, refund: Refund, after: LedgerState)
    requires
        before.wf(),
        before.run(refund.spec_steps()) == Ok::<LedgerState, ProgramError>(after),
    ensures
        after.has(refund.escrow.key),
        after.accounts[refund.escrow.key].unallocated(),
        after.has(refund.vault.key),
        after.accounts[refund.vault.key].unallocated(),
        after.has(refund.maker_ata_a.key),
        after.accounts[refund.maker_ata_a.key].balance()
            == before.accounts[refund.maker_ata_a.key].balance()
            + before.accounts[refund.vault.key].balance(),
        after.wf(),
        after.program_id == before.program_id,
{
    let (s0, s1, s2) = lemma_refund_unfolds(before, refund, after);
    let amount = spec_amount(refund.vault.data@);
    let vault = refund.vault.key;
    let holding = refund.maker_ata_a.key;
    lemma_run_keeps_frame(before, refund.spec_steps(), after);
    lemma_pack_fields(refund.mint_a.key, refund.maker.key, 0);
    lemma_pubkey_view_injective(refund.maker.key, refund.escrow.key);
    if amount > 0 {
        lemma_with_amount_fields(
            s0.accounts[vault].data,
            (spec_amount(s0.accounts[vault].data) - amount) as u64,
        );
        lemma_with_amount_fields(
            s0.accounts[holding].data,
            (spec_amount(s0.accounts[holding].data) + amount) as u64,
        );
    }
}

/// A refund asked for by anyone but the maker from whom the escrow address
/// was derived fails: the seed material rebuilt from the caller does not
/// sign for the address that holds the vault.
pub proof fn law_refund_by_stranger_fails(before: LedgerState, refund: Refund)
    requires
        before.has(refund.escrow.key) ==> match before.accounts[refund.escrow.key].seeds {
            Some(seeds) => seeds.maker != refund.maker.key,
            None => true,
        },
    ensures
        before.run(refund.spec_steps()) is Err,
{
    if before.run(refund.spec_steps()) is Ok {
        let after = before.run(refund.spec_steps())->Ok_0;
        let (s0, s1, s2) = lemma_refund_unfolds(before, refund, after);
        lemma_step_keeps_frame(before, refund.spec_steps()[0]);
        if spec_amount(refund.vault.data@) > 0 {
            lemma_step_keeps_frame(s0, refund.spec_steps()[1]);
        }
    }
}

/// After a maker's Make, a refund of that escrow asked for by another
/// signer fails.
pub proof fn law_refund_after_make_by_stranger_fails(
    before: LedgerState,
    make: Make,
    open: LedgerState,
    refund: Refund,
)
    requires
        before.wf(),
        before.run(make.spec_steps(before.program_id)) == Ok::<LedgerState, ProgramError>(open),
        refund.escrow.key == make.accounts.escrow.key,
        refund.maker.key != make.accounts.maker.key,
    ensures
        open.run(refund.spec_steps()) is Err,
{
    law_make_opens_offer(before, make, open);
    law_refund_by_stranger_fails(open, refund);
}

/// Make followed by Refund returns the deposit: the maker's holding account
/// ends with what it held before Make and what the vault held before Make.
/// With a vault that did not exist before, the maker's balance is restored
/// exactly.
pub proof fn law_make_then_refund_restores_balance(
    before: LedgerState,
    make: Make,
    open: LedgerState,
    refund: Refund,
    after: LedgerState,
)
    requires
        before.wf(),
        before.run(make.spec_steps(before.program_id)) == Ok::<LedgerState, ProgramError>(open),
        refund.vault.key == make.accounts.vault.key,
        refund.maker_ata_a.key == make.accounts.maker_ata_a.key,
        open.run(refund.spec_steps()) == Ok::<LedgerState, ProgramError>(after),
    ensures
        after.has(make.accounts.maker_ata_a.key),
        after.accounts[make.accounts.maker_ata_a.key].balance()
            == before.accounts[make.accounts.maker_ata_a.key].balance()
            + before.accounts[make.accounts.vault.key].balance(),
        before.accounts[make.accounts.vault.key].unallocated()
            ==> after.accounts[make.accounts.maker_ata_a.key].balance()
            == before.accounts[make.accounts.maker_ata_a.key].balance(),
{
    law_make_opens_offer(before, make, open);
    law_refund_closes_offer(open, refund, after);
}

/// Two Makes of one maker with one seed exclude each other: once the first
/// has succeeded the second fails at its first step, the allocation of the
/// escrow record. When it names the address and the bump byte of the first,
/// the failure is `AccountAlreadyInitialized`: the address holds the record.
pub proof fn law_second_make_fails(
    before: LedgerState,
    first: Make,
    open: LedgerState,
    second: Make,
)
    requires
        before.wf(),
        before.run(first.spec_steps(before.program_id)) == Ok::<LedgerState, ProgramError>(open),
        second.accounts.maker.key == first.accounts.maker.key,
        second.instruction_data.seed == first.instruction_data.seed,
    ensures
        open.step(second.spec_steps(open.program_id)[0]) is Err,
        open.run(second.spec_steps(open.program_id)) is Err,
        second.accounts.escrow.key == first.accounts.escrow.key && second.bump == first.bump
            ==> open.step(second.spec_steps(open.program_id)[0]) == Err::<
            LedgerState,
            ProgramError,
        >(ProgramError::AccountAlreadyInitialized),
{
    law_make_opens_offer(before, first, open);
    lemma_record_layout(first.spec_record());
    let steps = second.spec_steps(open.program_id);
    assert(steps =~= seq![steps[0]] + seq![steps[1], steps[2], steps[3]]);
    lemma_run_first(open, steps[0], seq![steps[1], steps[2], steps[3]]);
    let target = second.accounts.escrow.key;
    let held = first.accounts.escrow.key;
    if open.has(target) && open.accounts[target].seeds == Some(second.spec_seeds()) {
        assert(open.accounts[held].seeds->0.maker == open.accounts[target].seeds->0.maker);
        assert(target == held);
    }
    // The maker signed the first Make and paid for it, so it still counts
    // as a signer and is not the escrow address.
    let first_steps = first.spec_steps(before.program_id);
    assert(first_steps =~= seq![first_steps[0]] + seq![
        first_steps[1],
        first_steps[2],
        first_steps[3],
    ]);
    lemma_run_first(before, first_steps[0], seq![first_steps[1], first_steps[2], first_steps[3]]);
    lemma_run_keeps_frame(before, first_steps, open);
}

/// A run of steps changes neither which addresses the ledger knows, nor who
/// signed, nor what an address was derived from, nor the protocol's
/// identity, and it keeps a well-formed ledger well formed.
pub proof fn lemma_run_keeps_frame(before: LedgerState, steps: Seq<Step>, after: LedgerState)
    requires
        before.run(steps) == Ok::<LedgerState, ProgramError>(after),
    ensures
        after.program_id == before.program_id,
        after.accounts.dom() == before.accounts.dom(),
        forall|k: Pubkey| #[trigger]
            before.has(k) ==> after.accounts[k].seeds == before.accounts[k].seeds
                && after.accounts[k].is_signer == before.accounts[k].is_signer,
        before.wf() ==> after.wf(),
    decreases steps.len(),
{
    if steps.len() > 0 {
        let next = before.step(steps[0])->Ok_0;
        lemma_step_keeps_frame(before, steps[0]);
        lemma_run_keeps_frame(next, steps.subrange(1, steps.len() as int), after);
        assert forall|k: Pubkey| #[trigger] before.has(k) implies after.accounts[k].seeds
            == before.accounts[k].seeds && after.accounts[k].is_signer
            == before.accounts[k].is_signer by {
            assert(next.has(k));
        }
    }
}

/// The refund names the accounts of the offer that `make` opened, and
/// shows the record and the vault as they stand on the ledger.
pub open spec fn refund_of(refund: Refund, make: Make, state: LedgerState) -> bool {
    &&& refund.maker.key == make.accounts.maker.key
    &&& refund.escrow.key == make.accounts.escrow.key
    &&& refund.mint_a.key == make.accounts.mint_a.key
    &&& refund.vault.key == make.accounts.vault.key
    &&& refund.maker_ata_a.key == make.accounts.maker_ata_a.key
    &&& refund.system_program.key == make.accounts.system_program.key
    &&& refund.token_program.key == make.accounts.token_program.key
    &&& snapshot_of(*refund.escrow, state)
    &&& snapshot_of(*refund.vault, state)
}

/// After a Make on a ledger that was ready for it, the maker's Refund of
/// that offer succeeds.
pub proof fn law_refund_after_make_succeeds(
    before: LedgerState,
    make: Make,
    open: LedgerState,
    refund: Refund,
)
    requires
        before.wf(),
        make_ready(before, make),
        before.run(make.spec_steps(before.program_id)) == Ok::<LedgerState, ProgramError>(open),
        refund_of(refund, make, open),
    ensures
        refund.spec_readable(),
        open.run(refund.spec_steps()) is Ok,
{
    let (s1, s2, s3) = lemma_make_unfolds(before, make, open);
    let maker = make.accounts.maker.key;
    let escrow = make.accounts.escrow.key;
    let vault = make.accounts.vault.key;
    let holding = make.accounts.maker_ata_a.key;
    let amount = make.instruction_data.amount;
    lemma_pubkey_view_injective(maker, escrow);
    lemma_pack_fields(make.accounts.mint_a.key, escrow, 0);
    lemma_record_layout(make.spec_record());
    lemma_with_amount_fields(
        s3.accounts[vault].data,
        (spec_amount(s3.accounts[vault].data) + amount) as u64,
    );
    lemma_with_amount_fields(
        s3.accounts[holding].data,
        (spec_amount(s3.accounts[holding].data) - amount) as u64,
    );
    vstd::bytes::lemma_auto_spec_u64_to_from_le_bytes();
    let record = make.spec_record().spec_bytes();
    assert(record.subrange(112, 113)[0] == record[112]);
    assert(refund.spec_seeds() == make.spec_seeds());
    assert(refund.spec_readable());
    assert(spec_amount(refund.vault.data@) == amount);

    let steps = refund.spec_steps();
    let n = steps.len() as int;
    let close = seq![steps[n - 2], steps[n - 1]];
    assert(open.step(steps[0]) == Ok::<LedgerState, ProgramError>(open));
    let t0 = open;
    if amount > 0 {
        assert(steps =~= seq![steps[0]] + seq![steps[1], steps[2], steps[3]]);
        lemma_run_first(open, steps[0], seq![steps[1], steps[2], steps[3]]);
        assert(seq![steps[1], steps[2], steps[3]] =~= seq![steps[1]] + close);
        lemma_run_first(t0, steps[1], close);
        assert(t0.step(steps[1]) is Ok);
    } else {
        assert(steps =~= seq![steps[0]] + close);
        lemma_run_first(open, steps[0], close);
    }
    let t1 = if amount > 0 {
        t0.step(steps[1])->Ok_0
    } else {
        t0
    };
    lemma_with_amount_fields(
        t0.accounts[vault].data,
        (spec_amount(t0.accounts[vault].data) - amount) as u64,
    );
    lemma_with_amount_fields(
        t0.accounts[holding].data,
        (spec_amount(t0.accounts[holding].data) + amount) as u64,
    );
    assert(close =~= seq![steps[n - 2]] + seq![steps[n - 1]]);
    lemma_run_first(t1, steps[n - 2], seq![steps[n - 1]]);
    assert(t1.step(steps[n - 2]) is Ok);
    let t2 = t1.step(steps[n - 2])->Ok_0;
    assert(seq![steps[n - 1]] =~= seq![steps[n - 1]] + Seq::<Step>::empty());
    lemma_run_first(t2, steps[n - 1], Seq::<Step>::empty());
    assert(t2.step(steps[n - 1]) is Ok);
    lemma_run_none(t2.step(steps[n - 1])->Ok_0);
}

/// The offer at `escrow` is closed: the protocol owns no record there.
pub open spec fn offer_closed(state: LedgerState, escrow: Pubkey) -> bool {
    !state.has(escrow) || state.accounts[escrow].owner != state.program_id
}

/// Without an open offer a refund fails.
pub proof fn law_refund_needs_open_offer(before: LedgerState, refund: Refund)
    requires
        before.wf(),
        offer_closed(before, refund.escrow.key),
    ensures
        before.run(refund.spec_steps()) is Err,
{
    if before.run(refund.spec_steps()) is Ok {
        let after = before.run(refund.spec_steps())->Ok_0;
        lemma_refund_unfolds(before, refund, after);
        lemma_step_keeps_frame(before, refund.spec_steps()[0]);
    }
}

/// A refund settles the offer for good: on the ledger that it leaves, no
/// refund and no take of that offer succeeds.
pub proof fn law_refund_is_final(
    before: LedgerState,
    refund: Refund,
    after: LedgerState,
    next_refund: Refund,
    next_take: Take,
)
    requires
        before.wf(),
        before.run(refund.spec_steps()) == Ok::<LedgerState, ProgramError>(after),
        next_refund.escrow.key == refund.escrow.key,
        next_take.escrow.key == refund.escrow.key,
    ensures
        offer_closed(after, refund.escrow.key),
        after.run(next_refund.spec_steps()) is Err,
        after.run(next_take.spec_steps()) is Err,
{
    law_refund_closes_offer(before, refund, after);
    law_refund_needs_open_offer(after, next_refund);
    law_take_needs_open_offer(after, next_take);
}

/// The states that a take passes through, when it succeeds: after each of
/// the two holding accounts is seen to, after the payment, after the vault
/// is emptied, and after the vault is closed.
proof fn lemma_take_unfolds(before: LedgerState, take: Take, after: LedgerState) -> (mid: (
    LedgerState,
    LedgerState,
    LedgerState,
    LedgerState,
    LedgerState,
))
    requires
        before.run(take.spec_steps()) == Ok::<LedgerState, ProgramError>(after),
    ensures
        before.step(take.spec_steps()[0]) == Ok::<LedgerState, ProgramError>(mid.0),
        mid.0.step(take.spec_steps()[1]) == Ok::<LedgerState, ProgramError>(mid.1),
        mid.1.transfer(
            take.taker_ata_b.key,
            take.maker_ata_b.key,
            Authority::Signer(take.taker.key),
            take.spec_receive(),
        ) == Ok::<LedgerState, ProgramError>(mid.2),
        spec_amount(take.vault.data@) > 0 ==> mid.2.transfer(
            take.vault.key,
            take.taker_ata_a.key,
            take.spec_authority(),
            spec_amount(take.vault.data@),
        ) == Ok::<LedgerState, ProgramError>(mid.3),
        spec_amount(take.vault.data@) == 0 ==> mid.3 == mid.2,
        mid.3.close_account(take.vault.key, take.maker.key, take.spec_authority()) == Ok::<
            LedgerState,
            ProgramError,
        >(mid.4),
        mid.4.close_program_account(take.escrow.key, take.maker.key) == Ok::<
            LedgerState,
            ProgramError,
        >(after),
{
    let steps = take.spec_steps();
    let amount = spec_amount(take.vault.data@);
    let n = steps.len() as int;
    let close = seq![steps[n - 2], steps[n - 1]];
    let tail = if amount > 0 {
        seq![steps[3]] + close
    } else {
        close
    };
    assert(steps =~= seq![steps[0]] + (seq![steps[1], steps[2]] + tail));
    lemma_run_first(before, steps[0], seq![steps[1], steps[2]] + tail);
    let s0 = before.step(steps[0])->Ok_0;
    assert(seq![steps[1], steps[2]] + tail =~= seq![steps[1]] + (seq![steps[2]] + tail));
    lemma_run_first(s0, steps[1], seq![steps[2]] + tail);
    let s1 = s0.step(steps[1])->Ok_0;
    lemma_run_first(s1, steps[2], tail);
    let s2 = s1.step(steps[2])->Ok_0;
    if amount > 0 {
        lemma_run_first(s2, steps[3], close);
    }
    let s3 = if amount > 0 {
        s2.step(steps[3])->Ok_0
    } else {
        s2
    };
    assert(close =~= seq![steps[n - 2]] + seq![steps[n - 1]]);
    lemma_run_first(s3, steps[n - 2], seq![steps[n - 1]]);
    let s4 = s3.step(steps[n - 2])->Ok_0;
    assert(seq![steps[n - 1]] =~= seq![steps[n - 1]] + Seq::<Step>::empty());
    lemma_run_first(s4, steps[n - 1], Seq::<Step>::empty());
    lemma_run_none(s4.step(steps[n - 1])->Ok_0);
    (s0, s1, s2, s3, s4)
}

/// Without an open offer a take fails.
pub proof fn law_take_needs_open_offer(before: LedgerState, take: Take)
    requires
        before.wf(),
        offer_closed(before, take.escrow.key),
    ensures
        before.run(take.spec_steps()) is Err,
{
    if before.run(take.spec_steps()) is Ok {
        let after = before.run(take.spec_steps())->Ok_0;
        let (s0, s1, s2, s3, s4) = lemma_take_unfolds(before, take, after);
        lemma_step_keeps_frame(before, take.spec_steps()[0]);
        lemma_step_keeps_frame(s0, take.spec_steps()[1]);
    }
}

/// After Take the offer is settled: the escrow record and the vault are
/// unallocated, the taker's holding account for the offered mint has grown
/// by exactly what the vault held, the maker's holding account for the
/// requested mint has grown by exactly the amount that the record asks for,
/// and the taker's holding account for the requested mint has shrunk by it.
/// The vault and the three holding accounts are taken to be four different
/// accounts.
pub proof fn law_take_settles_offer(before: LedgerState, take: Take, after: LedgerState)
    requires
        before.wf(),
        before.run(take.spec_steps()) == Ok::<LedgerState, ProgramError>(after),
        take.taker_ata_a.key != take.taker_ata_b.key,
        take.taker_ata_a.key != take.maker_ata_b.key,
        take.taker_ata_b.key != take.maker_ata_b.key,
        take.vault.key != take.taker_ata_a.key,
        take.vault.key != take.taker_ata_b.key,
        take.vault.key != take.maker_ata_b.key,
    ensures
        after.has(take.escrow.key),
        after.accounts[take.escrow.key].unallocated(),
        after.has(take.vault.key),
        after.accounts[take.vault.key].unallocated(),
        after.has(take.taker_ata_a.key),
        after.accounts[take.taker_ata_a.key].balance()
            == before.accounts[take.taker_ata_a.key].balance()
            + before.accounts[take.vault.key].balance(),
        after.has(take.maker_ata_b.key),
        after.accounts[take.maker_ata_b.key].balance()
            == before.accounts[take.maker_ata_b.key].balance() + take.spec_receive(),
        after.has(take.taker_ata_b.key),
        after.accounts[take.taker_ata_b.key].balance()
            == before.accounts[take.taker_ata_b.key].balance() - take.spec_receive(),
        after.wf(),
        after.program_id == before.program_id,
{
    let (s0, s1, s2, s3, s4) = lemma_take_unfolds(before, take, after);
    let amount = spec_amount(take.vault.data@);
    let receive = take.spec_receive();
    let vault = take.vault.key;
    let got = take.taker_ata_a.key;
    let paid_from = take.taker_ata_b.key;
    let paid_to = take.maker_ata_b.key;
    lemma_run_keeps_frame(before, take.spec_steps(), after);
    lemma_pack_fields(take.mint_a.key, take.taker.key, 0);
    lemma_pack_fields(take.mint_b.key, take.maker.key, 0);
    lemma_pubkey_view_injective(take.maker.key, take.escrow.key);
    lemma_pubkey_view_injective(take.taker.key, take.escrow.key);
    lemma_with_amount_fields(
        s1.accounts[paid_from].data,
        (spec_amount(s1.accounts[paid_from].data) - receive) as u64,
    );
    lemma_with_amount_fields(
        s1.accounts[paid_to].data,
        (spec_amount(s1.accounts[paid_to].data) + receive) as u64,
    );
    if amount > 0 {
        lemma_with_amount_fields(
            s2.accounts[vault].data,
            (spec_amount(s2.accounts[vault].data) - amount) as u64,
        );
        lemma_with_amount_fields(
            s2.accounts[got].data,
            (spec_amount(s2.accounts[got].data) + amount) as u64,
        );
    }
}

/// A take settles the offer for good: on the ledger that it leaves, no
/// refund and no take of that offer succeeds.
pub proof fn law_take_is_final(
    before: LedgerState,
    take: Take,
    after: LedgerState,
    next_refund: Refund,
    next_take: Take,
)
    requires
        before.wf(),
        before.run(take.spec_steps()) == Ok::<LedgerState, ProgramError>(after),
        next_refund.escrow.key == take.escrow.key,
        next_take.escrow.key == take.escrow.key,
    ensures
        offer_closed(after, take.escrow.key),
        after.run(next_refund.spec_steps()) is Err,
        after.run(next_take.spec_steps()) is Err,
{
    lemma_take_unfolds(before, take, after);
    lemma_run_keeps_frame(before, take.spec_steps(), after);
    law_refund_needs_open_offer(after, next_refund);
    law_take_needs_open_offer(after, next_take);
}

/// Make followed by Take is the trade that the maker asked for: the taker
/// receives what the vault holds, which is the maker's deposit when the
/// vault did not exist before Make, and the maker receives exactly the
/// amount named in Make. The take is handed the record as Make left it, and
/// the vault and the three holding accounts are four different accounts.
pub proof fn law_make_then_take_trades(
    before: LedgerState,
    make: Make,
    open: LedgerState,
    take: Take,
    after: LedgerState,
)
    requires
        before.wf(),
        before.run(make.spec_steps(before.program_id)) == Ok::<LedgerState, ProgramError>(open),
        take.escrow.key == make.accounts.escrow.key,
        take.vault.key == make.accounts.vault.key,
        snapshot_of(*take.escrow, open),
        open.run(take.spec_steps()) == Ok::<LedgerState, ProgramError>(after),
        take.taker_ata_a.key != take.taker_ata_b.key,
        take.taker_ata_a.key != take.maker_ata_b.key,
        take.taker_ata_b.key != take.maker_ata_b.key,
        take.vault.key != take.taker_ata_a.key,
        take.vault.key != take.taker_ata_b.key,
        take.vault.key != take.maker_ata_b.key,
    ensures
        take.spec_receive() == make.instruction_data.receive,
        after.accounts[take.maker_ata_b.key].balance()
            == open.accounts[take.maker_ata_b.key].balance() + make.instruction_data.receive,
        after.accounts[take.taker_ata_b.key].balance()
            == open.accounts[take.taker_ata_b.key].balance() - make.instruction_data.receive,
        after.accounts[take.taker_ata_a.key].balance()
            == open.accounts[take.taker_ata_a.key].balance()
            + before.accounts[make.accounts.vault.key].balance() + make.instruction_data.amount,
        before.accounts[make.accounts.vault.key].unallocated()
            ==> after.accounts[take.taker_ata_a.key].balance()
            == open.accounts[take.taker_ata_a.key].balance() + make.instruction_data.amount,
        after.accounts[take.escrow.key].unallocated(),
        after.accounts[take.vault.key].unallocated(),
{
    law_make_opens_offer(before, make, open);
    lemma_record_layout(make.spec_record());
    vstd::bytes::lemma_auto_spec_u64_to_from_le_bytes();
    law_take_settles_offer(open, take, after);
}

/// Make changes no account but the four it names: the maker, the escrow
/// record, the vault and the maker's holding account.
pub proof fn law_make_changes_only_its_accounts(
    before: LedgerState,
    make: Make,
    after: LedgerState,
)
    requires
        before.run(make.spec_steps(before.program_id)) == Ok::<LedgerState, ProgramError>(after),
    ensures
        forall|k: Pubkey|
            before.has(k) && k != make.accounts.maker.key && k != make.accounts.escrow.key && k
                != make.accounts.vault.key && k != make.accounts.maker_ata_a.key ==> (
            #[trigger] after.accounts[k]) == before.accounts[k],
{
    let steps = make.spec_steps(before.program_id);
    assert forall|k: Pubkey|
        before.has(k) && k != make.accounts.maker.key && k != make.accounts.escrow.key && k
            != make.accounts.vault.key && k != make.accounts.maker_ata_a.key implies (
        #[trigger] after.accounts[k]) == before.accounts[k] by {
        lemma_run_changes_only_writes(before, steps, after, k);
    }
}

/// Refund changes no account but the four it names: the maker, the escrow
/// record, the vault and the maker's holding account.
pub proof fn law_refund_changes_only_its_accounts(
    before: LedgerState,
    refund: Refund,
    after: LedgerState,
)
    requires
        before.run(refund.spec_steps()) == Ok::<LedgerState, ProgramError>(after),
    ensures
        forall|k: Pubkey|
            before.has(k) && k != refund.maker.key && k != refund.escrow.key && k
                != refund.vault.key && k != refund.maker_ata_a.key ==> (
            #[trigger] after.accounts[k]) == before.accounts[k],
{
    let steps = refund.spec_steps();
    assert forall|k: Pubkey|
        before.has(k) && k != refund.maker.key && k != refund.escrow.key && k != refund.vault.key
            && k != refund.maker_ata_a.key implies (#[trigger] after.accounts[k])
        == before.accounts[k] by {
        lemma_run_changes_only_writes(before, steps, after, k);
    }
}

/// Take changes no account but the seven it names: the taker, the maker,
/// the escrow record, the vault and the three holding accounts.
pub proof fn law_take_changes_only_its_accounts(
    before: LedgerState,
    take: Take,
    after: LedgerState,
)
    requires
        before.run(take.spec_steps()) == Ok::<LedgerState, ProgramError>(after),
    ensures
        forall|k: Pubkey|
            before.has(k) && k != take.taker.key && k != take.maker.key && k != take.escrow.key
                && k != take.vault.key && k != take.taker_ata_a.key && k != take.taker_ata_b.key
                && k != take.maker_ata_b.key ==> (#[trigger] after.accounts[k])
                == before.accounts[k],
{
    let steps = take.spec_steps();
    assert forall|k: Pubkey|
        before.has(k) && k != take.taker.key && k != take.maker.key && k != take.escrow.key && k
            != take.vault.key && k != take.taker_ata_a.key && k != take.taker_ata_b.key && k
            != take.maker_ata_b.key implies (#[trigger] after.accounts[k])
        == before.accounts[k] by {
        lemma_run_changes_only_writes(before, steps, after, k);
    }
}

/// Make pays the rent from the maker: the escrow record holds its fixed
/// deposit, a vault that had to be created holds the deposit of a token
/// account, and the maker has paid exactly those. A vault that existed
/// already costs nothing and keeps its lamports.
pub proof fn law_make_pays_the_rent(before: LedgerState, make: Make, after: LedgerState)
    requires
        before.wf(),
        before.run(make.spec_steps(before.program_id)) == Ok::<LedgerState, ProgramError>(after),
    ensures
        after.accounts[make.accounts.escrow.key].lamports == ESCROW_RENT,
        before.accounts[make.accounts.vault.key].is_token() ==> {
            &&& after.accounts[make.accounts.maker.key].lamports
                == before.accounts[make.accounts.maker.key].lamports - ESCROW_RENT
            &&& make.accounts.vault.key != make.accounts.maker.key
                ==> after.accounts[make.accounts.vault.key].lamports
                == before.accounts[make.accounts.vault.key].lamports
        },
        !before.accounts[make.accounts.vault.key].is_token() ==> {
            &&& after.accounts[make.accounts.maker.key].lamports
                == before.accounts[make.accounts.maker.key].lamports - ESCROW_RENT
                - TOKEN_ACCOUNT_RENT
            &&& after.accounts[make.accounts.vault.key].lamports == TOKEN_ACCOUNT_RENT
        },
{
    let (s1, s2, s3) = lemma_make_unfolds(before, make, after);
    let maker = make.accounts.maker.key;
    let escrow = make.accounts.escrow.key;
    lemma_pubkey_view_injective(maker, escrow);
    lemma_pack_fields(make.accounts.mint_a.key, escrow, 0);
    lemma_record_layout(make.spec_record());
}

/// Refund pays the rent back to the maker: with the holding account
/// present, the maker ends with its own lamports, the vault's and the escrow
/// record's; where the holding account had to be created, the maker has
/// paid its deposit out of that sum and the holding account holds it.
pub proof fn law_refund_returns_the_rent(before: LedgerState, refund: Refund, after: LedgerState)
    requires
        before.wf(),
        before.run(refund.spec_steps()) == Ok::<LedgerState, ProgramError>(after),
    ensures
        before.accounts[refund.maker_ata_a.key].is_token() ==> {
            after.accounts[refund.maker.key].lamports
                == before.accounts[refund.maker.key].lamports
                + before.accounts[refund.vault.key].lamports
                + before.accounts[refund.escrow.key].lamports
        },
        !before.accounts[refund.maker_ata_a.key].is_token() ==> {
            &&& after.accounts[refund.maker.key].lamports
                == before.accounts[refund.maker.key].lamports - TOKEN_ACCOUNT_RENT
                + before.accounts[refund.vault.key].lamports
                + before.accounts[refund.escrow.key].lamports
            &&& after.accounts[refund.maker_ata_a.key].lamports == TOKEN_ACCOUNT_RENT
        },
{
    let (s0, s1, s2) = lemma_refund_unfolds(before, refund, after);
    lemma_pack_fields(refund.mint_a.key, refund.maker.key, 0);
    lemma_pubkey_view_injective(refund.maker.key, refund.escrow.key);
}

/// The ledger is ready for `make` with a vault that exists already: as in
/// [`make_ready`], but the vault is an empty token account of the offered
/// mint held by the escrow address, and the maker need only pay the rent
/// deposit of the record.
pub open spec fn make_ready_with_vault(state: LedgerState, make: Make) -> bool {
    let named = make.accounts;
    &&& state.has(named.maker.key)
    &&& state.has(named.escrow.key)
    &&& state.has(named.vault.key)
    &&& state.has(named.mint_a.key)
    &&& state.has(named.maker_ata_a.key)
    &&& state.accounts[named.maker.key].is_signer
    &&& state.accounts[named.maker.key].lamports >= ESCROW_RENT
    &&& state.accounts[named.escrow.key].unallocated()
    &&& state.accounts[named.escrow.key].seeds == Some(make.spec_seeds())
    &&& state.accounts[named.vault.key].is_token()
    &&& spec_owner(state.accounts[named.vault.key].data) == named.escrow.key@
    &&& spec_mint(state.accounts[named.vault.key].data) == named.mint_a.key@
    &&& spec_amount(state.accounts[named.vault.key].data) == 0
    &&& state.accounts[named.mint_a.key].is_mint()
    &&& state.accounts[named.maker_ata_a.key].is_token()
    &&& spec_owner(state.accounts[named.maker_ata_a.key].data) == named.maker.key@
    &&& spec_mint(state.accounts[named.maker_ata_a.key].data) == named.mint_a.key@
    &&& spec_amount(state.accounts[named.maker_ata_a.key].data) >= make.instruction_data.amount
    &&& named.system_program.key == SYSTEM_PROGRAM_ID
    &&& named.token_program.key@ == token_program_id()
}

/// Make succeeds where the vault exists already as an empty token account
/// of the escrow address: creating it again is no error and changes
/// nothing, and the vault ends with exactly the deposit.
pub proof fn law_make_on_existing_vault_succeeds(before: LedgerState, make: Make)
    requires
        before.wf(),
        make_ready_with_vault(before, make),
    ensures
        before.run(make.spec_steps(before.program_id)) is Ok,
        ({
            let after = before.run(make.spec_steps(before.program_id))->Ok_0;
            after.accounts[make.accounts.vault.key].balance() == make.instruction_data.amount
        }),
{
    let steps = make.spec_steps(before.program_id);
    let maker = make.accounts.maker.key;
    let escrow = make.accounts.escrow.key;
    let vault = make.accounts.vault.key;
    lemma_pubkey_view_injective(maker, escrow);
    assert(steps =~= seq![steps[0]] + seq![steps[1], steps[2], steps[3]]);
    lemma_run_first(before, steps[0], seq![steps[1], steps[2], steps[3]]);
    assert(before.step(steps[0]) is Ok);
    let s1 = before.step(steps[0])->Ok_0;
    assert(seq![steps[1], steps[2], steps[3]] =~= seq![steps[1]] + seq![steps[2], steps[3]]);
    lemma_run_first(s1, steps[1], seq![steps[2], steps[3]]);
    assert(s1.step(steps[1]) == Ok::<LedgerState, ProgramError>(s1));
    assert(seq![steps[2], steps[3]] =~= seq![steps[2]] + seq![steps[3]]);
    lemma_run_first(s1, steps[2], seq![steps[3]]);
    assert(s1.step(steps[2]) is Ok);
    let s3 = s1.step(steps[2])->Ok_0;
    assert(seq![steps[3]] =~= seq![steps[3]] + Seq::<Step>::empty());
    lemma_run_first(s3, steps[3], Seq::<Step>::empty());
    assert(s3.step(steps[3]) is Ok);
    lemma_run_none(s3.step(steps[3])->Ok_0);
    law_make_opens_offer(before, make, before.run(steps)->Ok_0);
}

/// The ledger is ready for `refund`: the refund shows the record and the
/// vault as they stand; the protocol owns the record, which has the
/// record's size and sits at the address derived from the caller with the
/// seed and the bump byte that it stores; the vault is a token account of
/// the offered mint held by the escrow address; the maker, the escrow record
/// and the vault are three accounts, and the maker can hold the lamports of
/// all three; the mint is a mint and the programs named are the system and
/// the token program. The maker's holding account either is unallocated,
/// and the maker signed and can pay its rent deposit, or is the maker's
/// token account of the offered mint with room for the vault's balance.
pub open spec fn refund_ready(state: LedgerState, refund: Refund) -> bool {
    let maker = refund.maker.key;
    let escrow = refund.escrow.key;
    let vault = refund.vault.key;
    let holding = refund.maker_ata_a.key;
    &&& state.has(maker)
    &&& state.has(escrow)
    &&& state.has(vault)
    &&& state.has(holding)
    &&& state.has(refund.mint_a.key)
    &&& snapshot_of(*refund.escrow, state)
    &&& snapshot_of(*refund.vault, state)
    &&& maker != escrow
    &&& maker != vault
    &&& state.accounts[escrow].owner == state.program_id
    &&& state.accounts[escrow].data.len() == ESCROW_LEN
    &&& state.accounts[escrow].seeds == Some(refund.spec_seeds())
    &&& state.accounts[vault].is_token()
    &&& spec_owner(state.accounts[vault].data) == escrow@
    &&& spec_mint(state.accounts[vault].data) == refund.mint_a.key@
    &&& state.accounts[maker].lamports + state.accounts[vault].lamports
        + state.accounts[escrow].lamports <= u64::MAX
    &&& state.accounts[refund.mint_a.key].is_mint()
    &&& refund.system_program.key == SYSTEM_PROGRAM_ID
    &&& refund.token_program.key@ == token_program_id()
    &&& if state.accounts[holding].is_token() {
        &&& spec_owner(state.accounts[holding].data) == maker@
        &&& spec_mint(state.accounts[holding].data) == refund.mint_a.key@
        &&& spec_amount(state.accounts[holding].data) + spec_amount(state.accounts[vault].data)
            <= u64::MAX
    } else {
        &&& state.accounts[holding].unallocated()
        &&& holding != maker
        &&& state.accounts[maker].is_signer
        &&& state.accounts[maker].lamports >= TOKEN_ACCOUNT_RENT
    }
}

/// On a ledger that is ready for it, Refund succeeds, whether the maker's
/// holding account exists or has to be created first.
pub proof fn law_refund_succeeds(open: LedgerState, refund: Refund)
    requires
        open.wf(),
        refund_ready(open, refund),
    ensures
        refund.spec_readable(),
        open.run(refund.spec_steps()) is Ok,
{
    let maker = refund.maker.key;
    let escrow = refund.escrow.key;
    let vault = refund.vault.key;
    let holding = refund.maker_ata_a.key;
    let amount = spec_amount(refund.vault.data@);
    lemma_pubkey_view_injective(maker, escrow);
    lemma_pack_fields(refund.mint_a.key, maker, 0);
    let steps = refund.spec_steps();
    let n = steps.len() as int;
    let close = seq![steps[n - 2], steps[n - 1]];
    assert(open.step(steps[0]) is Ok);
    let t0 = open.step(steps[0])->Ok_0;
    if amount > 0 {
        assert(steps =~= seq![steps[0]] + seq![steps[1], steps[2], steps[3]]);
        lemma_run_first(open, steps[0], seq![steps[1], steps[2], steps[3]]);
        assert(seq![steps[1], steps[2], steps[3]] =~= seq![steps[1]] + close);
        lemma_run_first(t0, steps[1], close);
        assert(t0.step(steps[1]) is Ok);
        lemma_with_amount_fields(
            t0.accounts[vault].data,
            (spec_amount(t0.accounts[vault].data) - amount) as u64,
        );
        lemma_with_amount_fields(
            t0.accounts[holding].data,
            (spec_amount(t0.accounts[holding].data) + amount) as u64,
        );
    } else {
        assert(steps =~= seq![steps[0]] + close);
        lemma_run_first(open, steps[0], close);
    }
    let t1 = if amount > 0 {
        t0.step(steps[1])->Ok_0
    } else {
        t0
    };
    assert(close =~= seq![steps[n - 2]] + seq![steps[n - 1]]);
    lemma_run_first(t1, steps[n - 2], seq![steps[n - 1]]);
    assert(t1.step(steps[n - 2]) is Ok);
    let t2 = t1.step(steps[n - 2])->Ok_0;
    assert(seq![steps[n - 1]] =~= seq![steps[n - 1]] + Seq::<Step>::empty());
    lemma_run_first(t2, steps[n - 1], Seq::<Step>::empty());
    assert(t2.step(steps[n - 1]) is Ok);
    lemma_run_none(t2.step(steps[n - 1])->Ok_0);
}

} // verus!
