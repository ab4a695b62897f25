//! The account layout of an instruction: one slot per declared account, in
//! declaration order, with the flags it goes on the wire with; which of the
//! slots sign; and the two summaries that document the layout.

use vstd::prelude::*;
use vstd::string::StringExecFns;
use crate::idl_types::IdlJsonAccount;

verus! {

/// One account of an instruction as the wire sees it. The address is the one
/// that the caller supplies at position `index`.
#[derive(Debug, Clone, Copy, PartialEq, Eq, Structural)]
pub struct AccountSlot {
    pub index: usize,
    pub is_signer: bool,
    pub is_writable: bool,
}

/// The compiled accounts of one instruction.
#[derive(Debug, Clone)]
pub struct AccountLayout {
    /// One slot per declared account, in declaration order.
    pub slots: Vec<AccountSlot>,
    /// The positions of the signing accounts, in declaration order: signing
    /// keys are supplied one per entry, in this order.
    pub signers: Vec<usize>,
    /// The summary of all accounts.
    pub accounts_doc: String,
    /// The summary of the signing accounts.
    pub signers_doc: String,
}

/// An [`AccountLayout`] with its contents as sequences.
pub struct AccountLayoutView {
    pub slots: Seq<AccountSlot>,
    pub signers: Seq<usize>,
    pub accounts_doc: Seq<char>,
    pub signers_doc: Seq<char>,
}

impl View for AccountLayout {
    type V = AccountLayoutView;

    open spec fn view(&self) -> AccountLayoutView {
        AccountLayoutView {
            slots: self.slots@,
            signers: self.signers@,
            accounts_doc: self.accounts_doc@,
            signers_doc: self.signers_doc@,
        }
    }
}

/// The slot of the account declared at position `i`. A signer is writable
/// whatever the description says of its mutability.
pub open spec fn slot_at(accounts: Seq<IdlJsonAccount>, i: int) -> AccountSlot {
    AccountSlot {
        index: i as usize,
        is_signer: accounts[i].is_signer,
        is_writable: accounts[i].is_signer || accounts[i].is_mut,
    }
}

/// The slots of a list of declared accounts.
pub open spec fn account_slots(accounts: Seq<IdlJsonAccount>) -> Seq<AccountSlot> {
    Seq::new(accounts.len(), |i: int| slot_at(accounts, i))
}

/// The positions of the signers among a list of declared accounts, ascending.
pub open spec fn signer_positions(accounts: Seq<IdlJsonAccount>) -> Seq<usize>
    decreases accounts.len(),
{
    if accounts.len() == 0 {
        Seq::empty()
    } else if accounts.last().is_signer {
        signer_positions(accounts.drop_last()).push((accounts.len() - 1) as usize)
    } else {
        signer_positions(accounts.drop_last())
    }
}

/// The character of a decimal digit.
pub open spec fn digit_char(d: nat) -> char {
    if d == 0 {
        '0'
    } else if d == 1 {
        '1'
    } else if d == 2 {
        '2'
    } else if d == 3 {
        '3'
    } else if d == 4 {
        '4'
    } else if d == 5 {
        '5'
    } else if d == 6 {
        '6'
    } else if d == 7 {
        '7'
    } else if d == 8 {
        '8'
    } else {
        '9'
    }
}

/// A number in decimal digits, without leading zeros.
pub open spec fn decimal(n: nat) -> Seq<char>
    decreases n,
{
    if n < 10 {
        seq![digit_char(n)]
    } else {
        decimal(n / 10).push(digit_char(n % 10))
    }
}

/// What a summary line says of an account's flags.
pub open spec fn flags_text(is_signer: bool, is_mut: bool) -> Seq<char> {
    if is_signer {
        " - signer: ✅, mutable: ✅"@
    } else if is_mut {
        " - signer: ❌, mutable: ✅"@
    } else {
        " - signer: ❌, mutable: ❌"@
    }
}

/// One line of a summary: the account's number in the list, its name, and its
/// flags as they go on the wire.
pub open spec fn summary_line(number: nat, account: IdlJsonAccount) -> Seq<char> {
    decimal(number) + ". "@ + account.name@ + flags_text(account.is_signer, account.is_mut)
}

/// The summary of all accounts: a heading, then one line per account,
/// numbered from one, each on a line of its own.
pub open spec fn accounts_summary(accounts: Seq<IdlJsonAccount>) -> Seq<char>
    decreases accounts.len(),
{
    if accounts.len() == 0 {
        "🔑 Required accounts: \n"@
    } else {
        accounts_summary(accounts.drop_last()) + "\n"@ + summary_line(
            accounts.len(),
            accounts.last(),
        )
    }
}

/// The summary of the signers: a heading, then one line per signing account,
/// numbered from one among the signers.
pub open spec fn signers_summary(accounts: Seq<IdlJsonAccount>) -> Seq<char>
    decreases accounts.len(),
{
    if accounts.len() == 0 {
        "✍️ Required signers:\n"@
    } else if accounts.last().is_signer {
        signers_summary(accounts.drop_last()) + "\n"@ + summary_line(
            signer_positions(accounts).len(),
            accounts.last(),
        )
    } else {
        signers_summary(accounts.drop_last())
    }
}

/// The layout of a list of declared accounts.
pub open spec fn layout_of(accounts: Seq<IdlJsonAccount>) -> AccountLayoutView {
    AccountLayoutView {
        slots: account_slots(accounts),
        signers: signer_positions(accounts),
        accounts_doc: accounts_summary(accounts),
        signers_doc: signers_summary(accounts),
    }
}

/// The slots follow the declaration: there is one per declared account, and
/// slot `i` belongs to the account declared at position `i` and refers to
/// the address supplied at that position.
pub proof fn lemma_slots_follow_declaration(accounts: Seq<IdlJsonAccount>, i: int)
    requires
        accounts.len() <= usize::MAX,
        0 <= i < accounts.len(),
    ensures
        layout_of(accounts).slots.len() == accounts.len(),
        layout_of(accounts).slots[i] == slot_at(accounts, i),
        layout_of(accounts).slots[i].index == i,
{
}

/// A signing account is marked writable, whatever the description says of
/// its mutability.
pub proof fn lemma_signer_is_writable(accounts: Seq<IdlJsonAccount>, i: int)
    requires
        0 <= i < accounts.len(),
        accounts[i].is_signer,
    ensures
        layout_of(accounts).slots[i].is_signer,
        layout_of(accounts).slots[i].is_writable,
{
}

/// An account that neither signs nor is declared mutable is marked
/// read-only; one that does not sign is writable exactly if it is declared
/// mutable.
pub proof fn lemma_non_signer_keeps_mutability(accounts: Seq<IdlJsonAccount>, i: int)
    requires
        0 <= i < accounts.len(),
        !accounts[i].is_signer,
    ensures
        !layout_of(accounts).slots[i].is_signer,
        layout_of(accounts).slots[i].is_writable == accounts[i].is_mut,
        !accounts[i].is_mut ==> !layout_of(accounts).slots[i].is_writable,
{
}

/// The signers are listed by position, ascending, each a signing account;
/// every signing account is listed.
pub proof fn lemma_signer_positions(accounts: Seq<IdlJsonAccount>)
    requires
        accounts.len() <= usize::MAX,
    ensures
        signer_positions(accounts).len() <= accounts.len(),
        forall|k: int|
            0 <= k < signer_positions(accounts).len() ==> {
                &&& (#[trigger] signer_positions(accounts)[k]) < accounts.len()
                &&& accounts[signer_positions(accounts)[k] as int].is_signer
            },
        forall|j: int, k: int|
            0 <= j < k < signer_positions(accounts).len() ==> signer_positions(accounts)[j]
                < signer_positions(accounts)[k],
        forall|i: int|
            0 <= i < accounts.len() && accounts[i].is_signer ==> signer_positions(
                accounts,
            ).contains(i as usize),
    decreases accounts.len(),
{
    if accounts.len() > 0 {
        let rest = accounts.drop_last();
        lemma_signer_positions(rest);
        let before = signer_positions(rest);
        let all = signer_positions(accounts);
        let last = (accounts.len() - 1) as usize;
        assert forall|i: int| 0 <= i < accounts.len() && accounts[i].is_signer implies all.contains(
            i as usize,
        ) by {
            if i < rest.len() {
                assert(rest[i].is_signer);
                let k = choose|k: int| 0 <= k < before.len() && before[k] == i as usize;
                assert(all[k] == i as usize);
            } else {
                assert(all[all.len() - 1] == last);
            }
        }
    }
}

/// The text of one decimal digit.
fn digit_text(d: usize) -> (text: &'static str)
    requires
        d < 10,
    ensures
        text@ == seq![digit_char(d as nat)],
{
    proof {
        reveal_strlit("0");
        reveal_strlit("1");
        reveal_strlit("2");
        reveal_strlit("3");
        reveal_strlit("4");
        reveal_strlit("5");
        reveal_strlit("6");
        reveal_strlit("7");
        reveal_strlit("8");
        reveal_strlit("9");
    }
    let text = if d == 0 {
        "0"
    } else if d == 1 {
        "1"
    } else if d == 2 {
        "2"
    } else if d == 3 {
        "3"
    } else if d == 4 {
        "4"
    } else if d == 5 {
        "5"
    } else if d == 6 {
        "6"
    } else if d == 7 {
        "7"
    } else if d == 8 {
        "8"
    } else {
        "9"
    };
    assert(text@ =~= seq![digit_char(d as nat)]);
    text
}

/// Writes a number in decimal digits.
pub fn decimal_text(n: usize) -> (text: String)
    ensures
        text@ == decimal(n as nat),
    decreases n,
{
    if n < 10 {
        String::from_str(digit_text(n))
    } else {
        let text = decimal_text(n / 10).concat(digit_text(n % 10));
        assert(text@ =~= decimal(n as nat));
        text
    }
}

/// Writes one line of a summary.
fn summary_line_text(number: usize, account: &IdlJsonAccount) -> (text: String)
    ensures
        text@ == summary_line(number as nat, *account),
{
    let flags = if account.is_signer {
        " - signer: ✅, mutable: ✅"
    } else if account.is_mut {
        " - signer: ❌, mutable: ✅"
    } else {
        " - signer: ❌, mutable: ❌"
    };
    decimal_text(number).concat(". ").concat(account.name.as_str()).concat(flags)
}

/// Compiles the declared accounts of an instruction into its layout.
///
/// Slot `i` belongs to the account declared at position `i` and refers to the
/// address supplied at that position. A signer goes on the wire as a writable
/// signer, whatever its declared mutability; any other account as a
/// non-signer that is writable exactly if it is declared mutable.
pub fn compile_accounts(accounts: &Vec<IdlJsonAccount>) -> (layout: AccountLayout)
    ensures
        layout@ == layout_of(accounts@),
        layout.slots@.len() == accounts@.len(),
        forall|i: int|
            0 <= i < accounts@.len() ==> (#[trigger] layout.slots@[i]).index == i,
        forall|i: int|
            0 <= i < accounts@.len() && accounts@[i].is_signer ==> {
                &&& (#[trigger] layout.slots@[i]).is_signer
                &&& layout.slots@[i].is_writable
            },
        forall|i: int|
            0 <= i < accounts@.len() && !accounts@[i].is_signer ==> {
                &&& !(#[trigger] layout.slots@[i]).is_signer
                &&& layout.slots@[i].is_writable == accounts@[i].is_mut
            },
{
    let mut slots: Vec<AccountSlot> = Vec::new();
    let mut signers: Vec<usize> = Vec::new();
    let mut accounts_doc = String::from_str("🔑 Required accounts: \n");
    let mut signers_doc = String::from_str("✍️ Required signers:\n");
    let mut i: usize = 0;
    while i < accounts.len()
        invariant
            i <= accounts@.len(),
            slots@ == account_slots(accounts@.take(i as int)),
            signers@ == signer_positions(accounts@.take(i as int)),
            accounts_doc@ == accounts_summary(accounts@.take(i as int)),
            signers_doc@ == signers_summary(accounts@.take(i as int)),
        decreases accounts@.len() - i,
    {
        let account = &accounts[i];
        let ghost before = accounts@.take(i as int);
        let ghost after = accounts@.take(i + 1);
        proof {
            assert(after.drop_last() =~= before);
            assert(after.last() == accounts@[i as int]);
        }
        slots.push(
            AccountSlot {
                index: i,
                is_signer: account.is_signer,
                is_writable: account.is_signer || account.is_mut,
            },
        );
        assert(slots@ =~= account_slots(after));
        accounts_doc.append("\n");
        accounts_doc.append(summary_line_text(i + 1, account).as_str());
        if account.is_signer {
            signers.push(i);
            signers_doc.append("\n");
            signers_doc.append(summary_line_text(signers.len(), account).as_str());
        }
        i = i + 1;
    }
    assert(accounts@.take(i as int) =~= accounts@);
    AccountLayout { slots, signers, accounts_doc, signers_doc }
}

} // verus!
