//! The Monero side: the commitment check, and the wallets behind lock, scan and sweep.
//!
//! A `monero-wallet-rpc` serves one open wallet at a time, so [`XmrChain`] tracks which of the
//! funder, watch and sweep wallets is open and switches as each phase needs it. Calling the
//! wallet and waiting are the caller's: an operation answers with the call to make, and goes on
//! with the reply.
use monero::PrivateKey;
use vstd::prelude::*;

use crate::bytes;
use crate::curve;
use crate::curve::{Point, Scalar};
use crate::json;
use crate::json::{Json, JsonView};
use crate::text;

verus! {

/// Is the point committed on Solana this party's own spend half `s_a·G`? The taker asks before
/// it locks XMR: against any other point it could never settle, and the XMR would be stranded.
pub fn commit_matches(own_spend: &Scalar, claim_point: &[u8; 32]) -> (r: bool)
    ensures
        r == (curve::base_point(own_spend@) == claim_point@),
{
    let own = Point::mul_base(own_spend).to_bytes();
    bytes::same32(&own, claim_point)
}

/// `PrivateKey::from_slice` of `monero`, back as bytes: the key has the very bytes that it was
/// made from, which must be a canonical scalar.
#[verifier::external_body]
fn private_key(b: &[u8; 32]) -> (r: Result<[u8; 32], String>)
    ensures
        r is Ok <==> curve::canonical_scalar(b@),
        r matches Ok(key) ==> key@ == b@,
        r matches Err(e) ==> e@ == "Not a canonical representation of an ed25519 scalar"@,
{
    match PrivateKey::from_slice(b) {
        Ok(key) => Ok(key.to_bytes()),
        Err(e) => Err(e.to_string()),
    }
}

/// The taker's funding wallet: an existing wallet file, opened to send the lock from.
#[derive(Clone)]
pub struct FunderWallet {
    pub filename: String,
    pub password: String,
}

/// Which wallet is open.
#[derive(Debug, PartialEq, Eq, Clone, Copy, Structural)]
pub enum WalletKind {
    /// None is.
    Closed,
    Funder,
    Watch,
    Sweep,
}

impl WalletKind {
    /// The name under which the wallet is reported.
    pub open spec fn name(self) -> Seq<char> {
        match self {
            WalletKind::Closed => "None"@,
            WalletKind::Funder => "Funder"@,
            WalletKind::Watch => "Watch"@,
            WalletKind::Sweep => "Sweep"@,
        }
    }
}

fn kind_name(kind: WalletKind) -> (s: &'static str)
    ensures
        s@ == kind.name(),
{
    match kind {
        WalletKind::Closed => "None",
        WalletKind::Funder => "Funder",
        WalletKind::Watch => "Watch",
        WalletKind::Sweep => "Sweep",
    }
}

/// How often to look for the locked output to unlock before sweeping.
pub const UNLOCK_TRIES: u32 = 60;

/// How long to wait between two looks, in seconds.
pub const UNLOCK_POLL_SECS: u64 = 30;

/// A call to the wallet.
pub enum WalletCall {
    Close,
    /// Open a wallet file that exists.
    Open { filename: String, password: String },
    /// Make and open a view-only wallet of the shared address.
    OpenWatch {
        filename: String,
        address: String,
        view_secret: [u8; 32],
        restore_height: u64,
        password: String,
    },
    /// Make and open the full wallet of the shared address.
    OpenSweep {
        filename: String,
        address: String,
        spend_key: [u8; 32],
        view_secret: [u8; 32],
        restore_height: u64,
        password: String,
    },
    Refresh,
    /// Send an amount to an address.
    Transfer { address: String, amount: u64 },
    Balance,
    /// Send everything to an address.
    SweepAll { address: String },
}

/// The contents of a [`WalletCall`].
pub enum WalletCallView {
    Close,
    Open { filename: Seq<char>, password: Seq<char> },
    OpenWatch {
        filename: Seq<char>,
        address: Seq<char>,
        view_secret: Seq<u8>,
        restore_height: u64,
        password: Seq<char>,
    },
    OpenSweep {
        filename: Seq<char>,
        address: Seq<char>,
        spend_key: Seq<u8>,
        view_secret: Seq<u8>,
        restore_height: u64,
        password: Seq<char>,
    },
    Refresh,
    Transfer { address: Seq<char>, amount: u64 },
    Balance,
    SweepAll { address: Seq<char> },
}

impl View for WalletCall {
    type V = WalletCallView;

    open spec fn view(&self) -> WalletCallView {
        match self {
            WalletCall::Close => WalletCallView::Close,
            WalletCall::Open { filename, password } => WalletCallView::Open {
                filename: filename@,
                password: password@,
            },
            WalletCall::OpenWatch { filename, address, view_secret, restore_height, password } =>
            WalletCallView::OpenWatch {
                filename: filename@,
                address: address@,
                view_secret: view_secret@,
                restore_height: *restore_height,
                password: password@,
            },
            WalletCall::OpenSweep {
                filename,
                address,
                spend_key,
                view_secret,
                restore_height,
                password,
            } => WalletCallView::OpenSweep {
                filename: filename@,
                address: address@,
                spend_key: spend_key@,
                view_secret: view_secret@,
                restore_height: *restore_height,
                password: password@,
            },
            WalletCall::Refresh => WalletCallView::Refresh,
            WalletCall::Transfer { address, amount } => WalletCallView::Transfer {
                address: address@,
                amount: *amount,
            },
            WalletCall::Balance => WalletCallView::Balance,
            WalletCall::SweepAll { address } => WalletCallView::SweepAll { address: address@ },
        }
    }
}

/// Why an operation failed.
#[derive(Debug)]
pub enum XmrError {
    /// The wallet refused a call, with this text.
    Wallet(String),
    /// The operation itself gave up.
    Transport(String),
}

/// The contents of an [`XmrError`].
pub enum XmrErrorView {
    Wallet(Seq<char>),
    Transport(Seq<char>),
}

impl View for XmrError {
    type V = XmrErrorView;

    open spec fn view(&self) -> XmrErrorView {
        match self {
            XmrError::Wallet(e) => XmrErrorView::Wallet(e@),
            XmrError::Transport(e) => XmrErrorView::Transport(e@),
        }
    }
}

/// What an operation waits for: the reply to a call, or the end of a pause.
pub enum Task {
    /// Locking: the open wallet is being closed.
    LockClose,
    /// Locking: the funder wallet is being opened.
    LockOpen,
    LockRefresh,
    /// Locking: the amount is being sent.
    LockSend,
    /// Locking: the funder wallet is being closed.
    LockFinish { tx: String },
    /// Scanning: the open wallet is being closed.
    WatchClose,
    /// Scanning: the watch wallet is being made.
    WatchMake,
    /// Scanning: the watch wallet is being opened again.
    WatchOpen,
    WatchRefresh,
    WatchBalance,
    /// Sweeping: the open wallet is being closed.
    SweepClose { spend_key: [u8; 32] },
    /// Sweeping: the sweep wallet is being made.
    SweepMake,
    /// Sweeping: the sweep wallet is being opened again.
    SweepOpen,
    /// Sweeping: the output is being looked for, for the time after this many.
    SweepRefresh { tries: u32 },
    SweepBalance { tries: u32 },
    SweepPause { tries: u32 },
    /// Sweeping: everything is being sent.
    SweepSend,
    /// Sweeping: the sweep wallet is being closed.
    SweepFinish { txs: Vec<String> },
}

/// The contents of a [`Task`].
pub enum TaskView {
    LockClose,
    LockOpen,
    LockRefresh,
    LockSend,
    LockFinish { tx: Seq<char> },
    WatchClose,
    WatchMake,
    WatchOpen,
    WatchRefresh,
    WatchBalance,
    SweepClose { spend_key: Seq<u8> },
    SweepMake,
    SweepOpen,
    SweepRefresh { tries: u32 },
    SweepBalance { tries: u32 },
    SweepPause { tries: u32 },
    SweepSend,
    SweepFinish { txs: Seq<Seq<char>> },
}

/// The contents of a list of texts.
pub open spec fn texts(list: Seq<String>) -> Seq<Seq<char>> {
    list.map_values(|s: String| s@)
}

impl View for Task {
    type V = TaskView;

    open spec fn view(&self) -> TaskView {
        match self {
            Task::LockClose => TaskView::LockClose,
            Task::LockOpen => TaskView::LockOpen,
            Task::LockRefresh => TaskView::LockRefresh,
            Task::LockSend => TaskView::LockSend,
            Task::LockFinish { tx } => TaskView::LockFinish { tx: tx@ },
            Task::WatchClose => TaskView::WatchClose,
            Task::WatchMake => TaskView::WatchMake,
            Task::WatchOpen => TaskView::WatchOpen,
            Task::WatchRefresh => TaskView::WatchRefresh,
            Task::WatchBalance => TaskView::WatchBalance,
            Task::SweepClose { spend_key } => TaskView::SweepClose { spend_key: spend_key@ },
            Task::SweepMake => TaskView::SweepMake,
            Task::SweepOpen => TaskView::SweepOpen,
            Task::SweepRefresh { tries } => TaskView::SweepRefresh { tries: *tries },
            Task::SweepBalance { tries } => TaskView::SweepBalance { tries: *tries },
            Task::SweepPause { tries } => TaskView::SweepPause { tries: *tries },
            Task::SweepSend => TaskView::SweepSend,
            Task::SweepFinish { txs } => TaskView::SweepFinish { txs: texts(txs@) },
        }
    }
}

/// What to do next about an operation.
pub enum XmrStep {
    /// Make this call, and go on with the reply.
    Call { task: Task, call: WalletCall },
    /// Wait for [`UNLOCK_POLL_SECS`], then resume.
    Pause { task: Task },
    /// The XMR was sent under this transaction hash.
    Sent(String),
    /// Whether the locked output is spendable.
    Seen(bool),
    /// Everything was swept, under these transaction hashes.
    Swept(Vec<String>),
    Failed(XmrError),
}

/// The contents of an [`XmrStep`].
pub enum XmrStepView {
    Call { task: TaskView, call: WalletCallView },
    Pause { task: TaskView },
    Sent(Seq<char>),
    Seen(bool),
    Swept(Seq<Seq<char>>),
    Failed(XmrErrorView),
}

impl View for XmrStep {
    type V = XmrStepView;

    open spec fn view(&self) -> XmrStepView {
        match self {
            XmrStep::Call { task, call } => XmrStepView::Call { task: task@, call: call@ },
            XmrStep::Pause { task } => XmrStepView::Pause { task: task@ },
            XmrStep::Sent(tx) => XmrStepView::Sent(tx@),
            XmrStep::Seen(b) => XmrStepView::Seen(*b),
            XmrStep::Swept(txs) => XmrStepView::Swept(texts(txs@)),
            XmrStep::Failed(e) => XmrStepView::Failed(e@),
        }
    }
}

/// The Monero backend of one party.
pub struct XmrChain {
    /// The shared address the XMR is locked into.
    lock_addr: String,
    /// Scans the shared address; also the view half of the sweep wallet.
    view_secret: [u8; 32],
    restore_height: u64,
    amount: u64,
    /// Where the winner sweeps the XMR to.
    payout: String,
    /// The taker locks from a funder wallet; the maker has none.
    funder: Option<FunderWallet>,
    /// Password of the wallet files that this swap makes.
    wallet_password: String,
    /// Wallet files of this swap alone.
    watch_file: String,
    sweep_file: String,
    open: WalletKind,
    created_watch: bool,
    created_sweep: bool,
}

/// The state of an [`XmrChain`].
pub struct XmrView {
    pub lock_addr: Seq<char>,
    pub view_secret: Seq<u8>,
    pub restore_height: u64,
    pub amount: u64,
    pub payout: Seq<char>,
    /// File name and password.
    pub funder: Option<(Seq<char>, Seq<char>)>,
    pub wallet_password: Seq<char>,
    pub watch_file: Seq<char>,
    pub sweep_file: Seq<char>,
    pub open: WalletKind,
    pub created_watch: bool,
    pub created_sweep: bool,
}

/// The contents of a funder wallet, if there is one.
pub open spec fn funder_view(funder: Option<FunderWallet>) -> Option<(Seq<char>, Seq<char>)> {
    match funder {
        Some(wallet) => Some((wallet.filename@, wallet.password@)),
        None => None,
    }
}

impl View for XmrChain {
    type V = XmrView;

    closed spec fn view(&self) -> XmrView {
        XmrView {
            lock_addr: self.lock_addr@,
            view_secret: self.view_secret@,
            restore_height: self.restore_height,
            amount: self.amount,
            payout: self.payout@,
            funder: funder_view(self.funder),
            wallet_password: self.wallet_password@,
            watch_file: self.watch_file@,
            sweep_file: self.sweep_file@,
            open: self.open,
            created_watch: self.created_watch,
            created_sweep: self.created_sweep,
        }
    }
}

/// A state and what to do next in it.
pub struct Turn {
    pub chain: XmrView,
    pub step: XmrStepView,
}

/// The unlocked balance in a reply, zero where it names none.
pub open spec fn unlocked_in(body: JsonView) -> u64 {
    match body.at("unlocked_balance"@).as_unsigned() {
        Some(unlocked) => unlocked,
        None => 0,
    }
}

/// The transaction hash in a reply, empty where it names none.
pub open spec fn hash_in(body: JsonView) -> Seq<char> {
    match body.at("tx_hash"@).as_text() {
        Some(tx) => tx,
        None => Seq::empty(),
    }
}

/// Those items that are texts.
pub open spec fn text_items(items: Seq<JsonView>) -> Seq<Seq<char>>
    decreases items.len(),
{
    if items.len() == 0 {
        Seq::empty()
    } else {
        let before = text_items(items.drop_last());
        match items.last().as_text() {
            Some(s) => before.push(s),
            None => before,
        }
    }
}

/// The transaction hashes in a reply.
pub open spec fn hashes_in(body: JsonView) -> Seq<Seq<char>> {
    match body.at("tx_hash_list"@) {
        JsonView::List(items) => text_items(items),
        _ => Seq::empty(),
    }
}

impl XmrView {
    pub open spec fn call(self, task: TaskView, call: WalletCallView) -> Turn {
        Turn { chain: self, step: XmrStepView::Call { task, call } }
    }

    pub open spec fn fail(self, e: XmrErrorView) -> Turn {
        Turn { chain: self, step: XmrStepView::Failed(e) }
    }

    /// The wallet refused a call.
    pub open spec fn refused(self, e: Seq<char>) -> Turn {
        self.fail(XmrErrorView::Wallet(e))
    }

    /// The open wallet could not be closed, and still counts as open.
    pub open spec fn stuck(self, e: Seq<char>) -> Turn {
        self.fail(
            XmrErrorView::Transport(
                "failed to close the "@ + self.open.name()
                    + " wallet (open state now unknown): "@ + e,
            ),
        )
    }

    pub open spec fn closed(self) -> XmrView {
        XmrView { open: WalletKind::Closed, ..self }
    }

    /// Open the funder wallet.
    pub open spec fn open_funder(self) -> Turn {
        match self.funder {
            Some(funder) => self.call(
                TaskView::LockOpen,
                WalletCallView::Open { filename: funder.0, password: funder.1 },
            ),
            None => self.fail(
                XmrErrorView::Transport("no funder wallet configured to lock from"@),
            ),
        }
    }

    /// Open the watch wallet: made the first time, opened again after that.
    pub open spec fn open_watch(self) -> Turn {
        if self.created_watch {
            self.call(
                TaskView::WatchOpen,
                WalletCallView::Open { filename: self.watch_file, password: self.wallet_password },
            )
        } else {
            self.call(
                TaskView::WatchMake,
                WalletCallView::OpenWatch {
                    filename: self.watch_file,
                    address: self.lock_addr,
                    view_secret: self.view_secret,
                    restore_height: self.restore_height,
                    password: self.wallet_password,
                },
            )
        }
    }

    /// Open the sweep wallet: made the first time, opened again after that.
    pub open spec fn open_sweep(self, spend_key: Seq<u8>) -> Turn {
        if self.created_sweep {
            self.call(
                TaskView::SweepOpen,
                WalletCallView::Open { filename: self.sweep_file, password: self.wallet_password },
            )
        } else {
            self.call(
                TaskView::SweepMake,
                WalletCallView::OpenSweep {
                    filename: self.sweep_file,
                    address: self.lock_addr,
                    spend_key,
                    view_secret: self.view_secret,
                    restore_height: self.restore_height,
                    password: self.wallet_password,
                },
            )
        }
    }

    /// How locking starts.
    pub open spec fn lock_turn(self) -> Turn {
        if self.funder is None || self.open is Closed {
            self.open_funder()
        } else {
            self.call(TaskView::LockClose, WalletCallView::Close)
        }
    }

    /// How scanning starts.
    pub open spec fn locked_turn(self) -> Turn {
        if self.open is Watch {
            self.call(TaskView::WatchRefresh, WalletCallView::Refresh)
        } else if self.open is Closed {
            self.open_watch()
        } else {
            self.call(TaskView::WatchClose, WalletCallView::Close)
        }
    }

    /// How sweeping starts.
    pub open spec fn sweep_turn(self, spend_key: Seq<u8>) -> Turn {
        if self.open is Closed {
            self.open_sweep(spend_key)
        } else {
            self.call(TaskView::SweepClose { spend_key }, WalletCallView::Close)
        }
    }

    /// How an operation goes on with a reply. After a pause there is none, and any will do.
    pub open spec fn turn(self, task: TaskView, reply: Result<JsonView, Seq<char>>) -> Turn {
        match (task, reply) {
            (TaskView::LockClose, Ok(_)) => self.closed().open_funder(),
            (TaskView::LockClose, Err(e)) => self.stuck(e),
            (TaskView::LockOpen, Ok(_)) => (XmrView { open: WalletKind::Funder, ..self }).call(
                TaskView::LockRefresh,
                WalletCallView::Refresh,
            ),
            (TaskView::LockRefresh, Ok(_)) => self.call(
                TaskView::LockSend,
                WalletCallView::Transfer { address: self.lock_addr, amount: self.amount },
            ),
            (TaskView::LockSend, Ok(body)) => self.call(
                TaskView::LockFinish { tx: hash_in(body) },
                WalletCallView::Close,
            ),
            (TaskView::LockFinish { tx }, Ok(_)) => Turn {
                chain: self.closed(),
                step: XmrStepView::Sent(tx),
            },
            (TaskView::LockFinish { .. }, Err(e)) => self.stuck(e),
            (TaskView::WatchClose, Ok(_)) => self.closed().open_watch(),
            (TaskView::WatchClose, Err(e)) => self.stuck(e),
            (TaskView::WatchMake, Ok(_)) => (XmrView {
                open: WalletKind::Watch,
                created_watch: true,
                ..self
            }).call(TaskView::WatchRefresh, WalletCallView::Refresh),
            (TaskView::WatchOpen, Ok(_)) => (XmrView { open: WalletKind::Watch, ..self }).call(
                TaskView::WatchRefresh,
                WalletCallView::Refresh,
            ),
            // A failed refresh leaves a stale balance, which is looked at all the same.
            (TaskView::WatchRefresh, _) => self.call(
                TaskView::WatchBalance,
                WalletCallView::Balance,
            ),
            (TaskView::WatchBalance, Ok(body)) => Turn {
                chain: self,
                step: XmrStepView::Seen(unlocked_in(body) >= self.amount),
            },
            (TaskView::SweepClose { spend_key }, Ok(_)) => self.closed().open_sweep(spend_key),
            (TaskView::SweepClose { .. }, Err(e)) => self.stuck(e),
            (TaskView::SweepMake, Ok(_)) => (XmrView {
                open: WalletKind::Sweep,
                created_sweep: true,
                ..self
            }).call(TaskView::SweepRefresh { tries: 0 }, WalletCallView::Refresh),
            (TaskView::SweepOpen, Ok(_)) => (XmrView { open: WalletKind::Sweep, ..self }).call(
                TaskView::SweepRefresh { tries: 0 },
                WalletCallView::Refresh,
            ),
            (TaskView::SweepRefresh { tries }, _) => self.call(
                TaskView::SweepBalance { tries },
                WalletCallView::Balance,
            ),
            (TaskView::SweepBalance { tries }, Ok(body)) => if unlocked_in(body) >= self.amount {
                self.call(TaskView::SweepSend, WalletCallView::SweepAll { address: self.payout })
            } else {
                Turn {
                    chain: self,
                    step: XmrStepView::Pause { task: TaskView::SweepPause { tries } },
                }
            },
            (TaskView::SweepPause { tries }, _) => if tries + 1 < UNLOCK_TRIES {
                self.call(
                    TaskView::SweepRefresh { tries: (tries + 1) as u32 },
                    WalletCallView::Refresh,
                )
            } else {
                self.fail(XmrErrorView::Transport(self.timeout_text()))
            },
            (TaskView::SweepSend, Ok(body)) => self.call(
                TaskView::SweepFinish { txs: hashes_in(body) },
                WalletCallView::Close,
            ),
            (TaskView::SweepFinish { txs }, Ok(_)) => Turn {
                chain: self.closed(),
                step: XmrStepView::Swept(txs),
            },
            (TaskView::SweepFinish { .. }, Err(e)) => self.stuck(e),
            (_, Err(e)) => self.refused(e),
        }
    }

    /// What is said when the output never unlocks: the XMR can be swept by hand.
    pub open spec fn timeout_text(self) -> Seq<char> {
        "sweep timed out waiting for the 2-of-2 output to unlock after "@ + text::decimal(
            UNLOCK_TRIES as nat,
        ) + " tries; the XMR is in wallet file '"@ + self.sweep_file
            + "' — open it and sweep manually"@
    }
}

fn unlocked_balance(body: &Json) -> (r: u64)
    ensures
        r == unlocked_in(body@),
{
    match body.get("unlocked_balance") {
        Some(unlocked) => match unlocked.as_u64() {
            Some(unlocked) => unlocked,
            None => 0,
        },
        None => 0,
    }
}

fn tx_hash(body: &Json) -> (r: String)
    ensures
        r@ == hash_in(body@),
{
    match body.get("tx_hash") {
        Some(tx) => match tx.as_str() {
            Some(tx) => tx.to_owned(),
            None => String::new(),
        },
        None => String::new(),
    }
}

fn tx_hashes(body: &Json) -> (r: Vec<String>)
    ensures
        texts(r@) == hashes_in(body@),
{
    let mut txs: Vec<String> = Vec::new();
    assert(texts(txs@) =~= Seq::<Seq<char>>::empty());
    match body.get("tx_hash_list") {
        Some(Json::List(items)) => {
            let ghost all = Json::List(*items)@->List_0;
            let mut i: usize = 0;
            assert(all.take(0) =~= Seq::<JsonView>::empty());
            while i < items.len()
                invariant
                    i <= items@.len(),
                    all.len() == items@.len(),
                    Json::List(*items)@ == JsonView::List(all),
                    texts(txs@) == text_items(all.take(i as int)),
                decreases items@.len() - i,
            {
                assert(all[i as int] == items@[i as int]@);
                assert(all.take(i + 1).drop_last() =~= all.take(i as int));
                if let Some(tx) = items[i].as_str() {
                    let ghost before = texts(txs@);
                    txs.push(tx.to_owned());
                    assert(texts(txs@) =~= before.push(tx@));
                }
                i += 1;
            }
            assert(all.take(i as int) =~= all);
            txs
        },
        _ => txs,
    }
}

impl XmrChain {
    /// The backend of one party, no wallet open. The watch and sweep wallet files are named by
    /// the swap's tag.
    pub fn new(
        lock_addr: &str,
        view_secret: [u8; 32],
        restore_height: u64,
        amount: u64,
        payout: &str,
        funder: Option<FunderWallet>,
        wallet_password: &str,
        tag: &str,
    ) -> (r: XmrChain)
        ensures
            r@ == (XmrView {
                lock_addr: lock_addr@,
                view_secret: view_secret@,
                restore_height,
                amount,
                payout: payout@,
                funder: funder_view(funder),
                wallet_password: wallet_password@,
                watch_file: "suture-watch-"@ + tag@,
                sweep_file: "suture-sweep-"@ + tag@,
                open: WalletKind::Closed,
                created_watch: false,
                created_sweep: false,
            }),
    {
        XmrChain {
            lock_addr: lock_addr.to_owned(),
            view_secret,
            restore_height,
            amount,
            payout: payout.to_owned(),
            funder,
            wallet_password: wallet_password.to_owned(),
            watch_file: text::concat("suture-watch-", tag),
            sweep_file: text::concat("suture-sweep-", tag),
            open: WalletKind::Closed,
            created_watch: false,
            created_sweep: false,
        }
    }

    /// A failed close: the wallet still counts as open, so that no later call goes to a wallet
    /// other than the one it is meant for.
    fn close_failed(&self, e: &str) -> (step: XmrStep)
        ensures
            step@ == self@.stuck(e@).step,
    {
        let mut why = "failed to close the ".to_owned();
        why.append(kind_name(self.open));
        why.append(" wallet (open state now unknown): ");
        why.append(e);
        XmrStep::Failed(XmrError::Transport(why))
    }

    fn open_funder(&self) -> (step: XmrStep)
        ensures
            step@ == self@.open_funder().step,
    {
        match &self.funder {
            Some(funder) => XmrStep::Call {
                task: Task::LockOpen,
                call: WalletCall::Open {
                    filename: funder.filename.clone(),
                    password: funder.password.clone(),
                },
            },
            None => XmrStep::Failed(
                XmrError::Transport("no funder wallet configured to lock from".to_owned()),
            ),
        }
    }

    fn open_watch(&self) -> (step: XmrStep)
        ensures
            step@ == self@.open_watch().step,
    {
        if self.created_watch {
            XmrStep::Call {
                task: Task::WatchOpen,
                call: WalletCall::Open {
                    filename: self.watch_file.clone(),
                    password: self.wallet_password.clone(),
                },
            }
        } else {
            XmrStep::Call {
                task: Task::WatchMake,
                call: WalletCall::OpenWatch {
                    filename: self.watch_file.clone(),
                    address: self.lock_addr.clone(),
                    view_secret: self.view_secret,
                    restore_height: self.restore_height,
                    password: self.wallet_password.clone(),
                },
            }
        }
    }

    fn open_sweep(&self, spend_key: [u8; 32]) -> (step: XmrStep)
        ensures
            step@ == self@.open_sweep(spend_key@).step,
    {
        if self.created_sweep {
            XmrStep::Call {
                task: Task::SweepOpen,
                call: WalletCall::Open {
                    filename: self.sweep_file.clone(),
                    password: self.wallet_password.clone(),
                },
            }
        } else {
            XmrStep::Call {
                task: Task::SweepMake,
                call: WalletCall::OpenSweep {
                    filename: self.sweep_file.clone(),
                    address: self.lock_addr.clone(),
                    spend_key,
                    view_secret: self.view_secret,
                    restore_height: self.restore_height,
                    password: self.wallet_password.clone(),
                },
            }
        }
    }

    /// Start to send the amount from the funder wallet into the shared address.
    pub fn lock(&self) -> (step: XmrStep)
        ensures
            step@ == self@.lock_turn().step,
            self@.lock_turn().chain == self@,
    {
        if self.funder.is_none() || self.open == WalletKind::Closed {
            self.open_funder()
        } else {
            XmrStep::Call { task: Task::LockClose, call: WalletCall::Close }
        }
    }

    /// Start to look whether the locked output is confirmed and spendable. The maker arms the
    /// claim window on this, so an output that was merely seen does not count.
    pub fn locked(&self) -> (step: XmrStep)
        ensures
            step@ == self@.locked_turn().step,
            self@.locked_turn().chain == self@,
    {
        if self.open == WalletKind::Watch {
            XmrStep::Call { task: Task::WatchRefresh, call: WalletCall::Refresh }
        } else if self.open == WalletKind::Closed {
            self.open_watch()
        } else {
            XmrStep::Call { task: Task::WatchClose, call: WalletCall::Close }
        }
    }

    /// Start to sweep the shared address with the reconstructed spend key.
    pub fn sweep(&self, spend_key: Scalar) -> (step: XmrStep)
        ensures
            step@ == self@.sweep_turn(spend_key.encoding()).step,
            self@.sweep_turn(spend_key.encoding()).chain == self@,
    {
        let b: [u8; 32] = spend_key.to_bytes();
        let key: [u8; 32] = match private_key(&b) {
            Ok(key) => key,
            Err(e) => {
                return XmrStep::Failed(
                    XmrError::Transport(
                        text::concat("reconstructed spend key invalid: ", e.as_str()),
                    ),
                );
            },
        };
        if self.open == WalletKind::Closed {
            self.open_sweep(key)
        } else {
            XmrStep::Call { task: Task::SweepClose { spend_key: key }, call: WalletCall::Close }
        }
    }

    /// Go on with the reply to the last call.
    pub fn advance(&mut self, task: Task, reply: &Result<Json, String>) -> (step: XmrStep)
        ensures
            ({
                let turn = old(self)@.turn(task@, json::reply_view(*reply));
                step@ == turn.step && final(self)@ == turn.chain
            }),
    {
        match (task, reply) {
            (Task::LockClose, Ok(_)) => {
                self.open = WalletKind::Closed;
                self.open_funder()
            },
            (Task::LockClose, Err(e)) => self.close_failed(e.as_str()),
            (Task::LockOpen, Ok(_)) => {
                self.open = WalletKind::Funder;
                XmrStep::Call { task: Task::LockRefresh, call: WalletCall::Refresh }
            },
            (Task::LockRefresh, Ok(_)) => XmrStep::Call {
                task: Task::LockSend,
                call: WalletCall::Transfer { address: self.lock_addr.clone(), amount: self.amount },
            },
            (Task::LockSend, Ok(body)) => XmrStep::Call {
                task: Task::LockFinish { tx: tx_hash(body) },
                call: WalletCall::Close,
            },
            (Task::LockFinish { tx }, Ok(_)) => {
                self.open = WalletKind::Closed;
                XmrStep::Sent(tx)
            },
            (Task::LockFinish { .. }, Err(e)) => self.close_failed(e.as_str()),
            (Task::WatchClose, Ok(_)) => {
                self.open = WalletKind::Closed;
                self.open_watch()
            },
            (Task::WatchClose, Err(e)) => self.close_failed(e.as_str()),
            (Task::WatchMake, Ok(_)) => {
                self.created_watch = true;
                self.open = WalletKind::Watch;
                XmrStep::Call { task: Task::WatchRefresh, call: WalletCall::Refresh }
            },
            (Task::WatchOpen, Ok(_)) => {
                self.open = WalletKind::Watch;
                XmrStep::Call { task: Task::WatchRefresh, call: WalletCall::Refresh }
            },
            (Task::WatchRefresh, _) => XmrStep::Call {
                task: Task::WatchBalance,
                call: WalletCall::Balance,
            },
            (Task::WatchBalance, Ok(body)) => XmrStep::Seen(unlocked_balance(body) >= self.amount),
            (Task::SweepClose { spend_key }, Ok(_)) => {
                self.open = WalletKind::Closed;
                self.open_sweep(spend_key)
            },
            (Task::SweepClose { .. }, Err(e)) => self.close_failed(e.as_str()),
            (Task::SweepMake, Ok(_)) => {
                self.created_sweep = true;
                self.open = WalletKind::Sweep;
                XmrStep::Call {
                    task: Task::SweepRefresh { tries: 0 },
                    call: WalletCall::Refresh,
                }
            },
            (Task::SweepOpen, Ok(_)) => {
                self.open = WalletKind::Sweep;
                XmrStep::Call {
                    task: Task::SweepRefresh { tries: 0 },
                    call: WalletCall::Refresh,
                }
            },
            (Task::SweepRefresh { tries }, _) => XmrStep::Call {
                task: Task::SweepBalance { tries },
                call: WalletCall::Balance,
            },
            (Task::SweepBalance { tries }, Ok(body)) => {
                if unlocked_balance(body) >= self.amount {
                    XmrStep::Call {
                        task: Task::SweepSend,
                        call: WalletCall::SweepAll { address: self.payout.clone() },
                    }
                } else {
                    XmrStep::Pause { task: Task::SweepPause { tries } }
                }
            },
            (Task::SweepPause { tries }, _) => {
                if tries < UNLOCK_TRIES - 1 {
                    XmrStep::Call {
                        task: Task::SweepRefresh { tries: tries + 1 },
                        call: WalletCall::Refresh,
                    }
                } else {
                    let mut why =
                        "sweep timed out waiting for the 2-of-2 output to unlock after ".to_owned();
                    text::push_decimal(&mut why, UNLOCK_TRIES as u64);
                    why.append(" tries; the XMR is in wallet file '");
                    why.append(self.sweep_file.as_str());
                    why.append("' — open it and sweep manually");
                    XmrStep::Failed(XmrError::Transport(why))
                }
            },
            (Task::SweepSend, Ok(body)) => XmrStep::Call {
                task: Task::SweepFinish { txs: tx_hashes(body) },
                call: WalletCall::Close,
            },
            (Task::SweepFinish { txs }, Ok(_)) => {
                self.open = WalletKind::Closed;
                XmrStep::Swept(txs)
            },
            (Task::SweepFinish { .. }, Err(e)) => self.close_failed(e.as_str()),
            (_, Err(e)) => XmrStep::Failed(XmrError::Wallet(e.clone())),
        }
    }

    /// Go on after a pause.
    pub fn resume(&mut self, task: Task) -> (step: XmrStep)
        ensures
            ({
                let turn = old(self)@.turn(
                    task@,
                    Ok::<JsonView, Seq<char>>(JsonView::Null),
                );
                step@ == turn.step && final(self)@ == turn.chain
            }),
    {
        let reply: Result<Json, String> = Ok(Json::Null);
        self.advance(task, &reply)
    }
}

/// Is the right wallet open for what an operation waits for?
pub open spec fn in_order(chain: XmrView, task: TaskView) -> bool {
    match task {
        TaskView::LockClose | TaskView::WatchClose | TaskView::SweepClose { .. } => !(
        chain.open is Closed),
        TaskView::LockOpen
        | TaskView::WatchMake
        | TaskView::WatchOpen
        | TaskView::SweepMake
        | TaskView::SweepOpen => chain.open is Closed,
        TaskView::LockRefresh
        | TaskView::LockSend
        | TaskView::LockFinish { .. } => chain.open is Funder,
        TaskView::WatchRefresh | TaskView::WatchBalance => chain.open is Watch,
        TaskView::SweepRefresh { tries }
        | TaskView::SweepBalance { tries }
        | TaskView::SweepPause { tries } => chain.open is Sweep && tries < UNLOCK_TRIES,
        TaskView::SweepSend | TaskView::SweepFinish { .. } => chain.open is Sweep,
    }
}

/// Does this turn leave the wallets in order?
pub open spec fn keeps_order(turn: Turn) -> bool {
    match turn.step {
        XmrStepView::Call { task, .. } => in_order(turn.chain, task),
        XmrStepView::Pause { task } => in_order(turn.chain, task),
        _ => true,
    }
}

/// Every operation starts and goes on with the right wallet open, whatever the wallet replies,
/// and looks for the output a bounded number of times.
pub proof fn law_wallets_stay_in_order(
    chain: XmrView,
    task: TaskView,
    reply: Result<JsonView, Seq<char>>,
    spend_key: Seq<u8>,
)
    ensures
        keeps_order(chain.lock_turn()),
        keeps_order(chain.locked_turn()),
        keeps_order(chain.sweep_turn(spend_key)),
        in_order(chain, task) ==> keeps_order(chain.turn(task, reply)),
{
}

/// A wallet stops counting as open only when the wallet confirmed that it was closed, or when
/// another one was opened in its place.
pub proof fn law_open_is_cleared_only_by_a_close(
    chain: XmrView,
    task: TaskView,
    reply: Result<JsonView, Seq<char>>,
)
    requires
        in_order(chain, task),
        !(chain.open is Closed),
        chain.turn(task, reply).chain.open != chain.open,
    ensures
        chain.turn(task, reply).chain.open is Closed,
        reply is Ok,
        task is LockClose || task is LockFinish || task is WatchClose || task is SweepClose
            || task is SweepFinish,
{
}

/// Everything is swept only out of the sweep wallet, only once the unlocked balance covers the
/// amount, and only to the payout address.
pub proof fn law_sweeps_only_unlocked_outputs(
    chain: XmrView,
    task: TaskView,
    reply: Result<JsonView, Seq<char>>,
    next: TaskView,
    address: Seq<char>,
)
    requires
        in_order(chain, task),
        chain.turn(task, reply).step == (XmrStepView::Call {
            task: next,
            call: WalletCallView::SweepAll { address },
        }),
    ensures
        chain.open is Sweep,
        address == chain.payout,
        task is SweepBalance,
        reply matches Ok(body) && unlocked_in(body) >= chain.amount,
{
}

/// The amount is sent only out of the funder wallet, and only to the shared address.
pub proof fn law_locks_only_from_the_funder(
    chain: XmrView,
    task: TaskView,
    reply: Result<JsonView, Seq<char>>,
    next: TaskView,
    address: Seq<char>,
    amount: u64,
)
    requires
        in_order(chain, task),
        chain.turn(task, reply).step == (XmrStepView::Call {
            task: next,
            call: WalletCallView::Transfer { address, amount },
        }),
    ensures
        chain.open is Funder,
        address == chain.lock_addr,
        amount == chain.amount,
{
}

/// A wallet file of the swap is made once: made files are remembered, and never made again.
pub proof fn law_wallet_files_are_made_once(
    chain: XmrView,
    task: TaskView,
    reply: Result<JsonView, Seq<char>>,
    spend_key: Seq<u8>,
)
    ensures
        chain.created_watch ==> chain.turn(task, reply).chain.created_watch,
        chain.created_sweep ==> chain.turn(task, reply).chain.created_sweep,
        task is WatchMake && reply is Ok ==> chain.turn(task, reply).chain.created_watch,
        task is SweepMake && reply is Ok ==> chain.turn(task, reply).chain.created_sweep,
        chain.created_watch ==> !(chain.turn(task, reply).step matches XmrStepView::Call {
            call,
            ..
        } && call is OpenWatch),
        chain.created_sweep ==> !(chain.turn(task, reply).step matches XmrStepView::Call {
            call,
            ..
        } && call is OpenSweep),
{
}

/// Without a funder wallet nothing is ever locked: the operation fails at once.
pub proof fn law_no_lock_without_a_funder(chain: XmrView)
    requires
        chain.funder is None,
    ensures
        chain.lock_turn().step == XmrStepView::Failed(
            XmrErrorView::Transport("no funder wallet configured to lock from"@),
        ),
{
}

/// The three operations.
pub enum Operation {
    Lock,
    Locked,
    Sweep,
}

/// The operation that a task belongs to.
pub open spec fn operation(task: TaskView) -> Operation {
    match task {
        TaskView::LockClose
        | TaskView::LockOpen
        | TaskView::LockRefresh
        | TaskView::LockSend
        | TaskView::LockFinish { .. } => Operation::Lock,
        TaskView::WatchClose
        | TaskView::WatchMake
        | TaskView::WatchOpen
        | TaskView::WatchRefresh
        | TaskView::WatchBalance => Operation::Locked,
        _ => Operation::Sweep,
    }
}

/// Is this a step of the operation: a further task of it, its own kind of result, or a failure?
pub open spec fn belongs(step: XmrStepView, op: Operation) -> bool {
    match step {
        XmrStepView::Call { task, .. } => operation(task) == op,
        XmrStepView::Pause { task } => operation(task) == op,
        XmrStepView::Sent(_) => op is Lock,
        XmrStepView::Seen(_) => op is Locked,
        XmrStepView::Swept(_) => op is Sweep,
        XmrStepView::Failed(_) => true,
    }
}

/// Each operation keeps to its own tasks, and ends with its own kind of result or a failure.
pub proof fn law_operations_end_with_their_own_result(
    chain: XmrView,
    task: TaskView,
    reply: Result<JsonView, Seq<char>>,
    spend_key: Seq<u8>,
)
    ensures
        belongs(chain.lock_turn().step, Operation::Lock),
        belongs(chain.locked_turn().step, Operation::Locked),
        belongs(chain.sweep_turn(spend_key).step, Operation::Sweep),
        belongs(chain.turn(task, reply).step, operation(task)),
{
}

/// Nothing about the swap ever changes: no operation touches the addresses, the keys, the amount,
/// the wallet files or their passwords. An operation that is only started changes nothing at all.
pub proof fn law_the_swap_stays_the_same(
    chain: XmrView,
    task: TaskView,
    reply: Result<JsonView, Seq<char>>,
    spend_key: Seq<u8>,
)
    ensures
        ({
            let after = chain.turn(task, reply).chain;
            &&& after.lock_addr == chain.lock_addr
            &&& after.view_secret == chain.view_secret
            &&& after.restore_height == chain.restore_height
            &&& after.amount == chain.amount
            &&& after.payout == chain.payout
            &&& after.funder == chain.funder
            &&& after.wallet_password == chain.wallet_password
            &&& after.watch_file == chain.watch_file
            &&& after.sweep_file == chain.sweep_file
        }),
        chain.lock_turn().chain == chain,
        chain.locked_turn().chain == chain,
        chain.sweep_turn(spend_key).chain == chain,
{
}

/// Which wallet counts as open, and which files exist, follows what the wallet confirmed: opening
/// a wallet, closing one, and nothing else.
pub proof fn law_open_follows_the_wallet(
    chain: XmrView,
    task: TaskView,
    reply: Result<JsonView, Seq<char>>,
)
    ensures
        ({
            let after = chain.turn(task, reply).chain;
            let closes = task is LockClose || task is LockFinish || task is WatchClose
                || task is SweepClose || task is SweepFinish;
            let opens_watch = task is WatchMake || task is WatchOpen;
            let opens_sweep = task is SweepMake || task is SweepOpen;
            &&& closes && reply is Ok ==> after.open is Closed
            &&& task is LockOpen && reply is Ok ==> after.open is Funder
            &&& opens_watch && reply is Ok ==> after.open is Watch
            &&& opens_sweep && reply is Ok ==> after.open is Sweep
            &&& reply is Err || !(closes || task is LockOpen || opens_watch || opens_sweep)
                ==> after.open == chain.open
            &&& after.created_watch <==> chain.created_watch || (task is WatchMake && reply is Ok)
            &&& after.created_sweep <==> chain.created_sweep || (task is SweepMake && reply is Ok)
        }),
{
}

/// Is this the call that belongs to a task, given the swap? Every wallet is opened under its own
/// file name and password, and made from the shared address, the view key and the restore height
/// of the swap.
pub open spec fn its_call(chain: XmrView, task: TaskView, call: WalletCallView) -> bool {
    match call {
        WalletCallView::Close => task is LockClose || task is LockFinish || task is WatchClose
            || task is SweepClose || task is SweepFinish,
        WalletCallView::Open { filename, password } => {
            ||| task is LockOpen && chain.funder == Some((filename, password))
            ||| task is WatchOpen && filename == chain.watch_file && password
                == chain.wallet_password
            ||| task is SweepOpen && filename == chain.sweep_file && password
                == chain.wallet_password
        },
        WalletCallView::OpenWatch { filename, address, view_secret, restore_height, password } => {
            &&& task is WatchMake
            &&& filename == chain.watch_file && password == chain.wallet_password
            &&& address == chain.lock_addr && view_secret == chain.view_secret
            &&& restore_height == chain.restore_height
        },
        WalletCallView::OpenSweep {
            filename,
            address,
            spend_key: _,
            view_secret,
            restore_height,
            password,
        } => {
            &&& task is SweepMake
            &&& filename == chain.sweep_file && password == chain.wallet_password
            &&& address == chain.lock_addr && view_secret == chain.view_secret
            &&& restore_height == chain.restore_height
        },
        WalletCallView::Refresh => task is LockRefresh || task is WatchRefresh
            || task is SweepRefresh,
        WalletCallView::Transfer { address, amount } => task is LockSend && address
            == chain.lock_addr && amount == chain.amount,
        WalletCallView::Balance => task is WatchBalance || task is SweepBalance,
        WalletCallView::SweepAll { address } => task is SweepSend && address == chain.payout,
    }
}

/// Every task makes the call that belongs to it, with the values of the swap.
pub proof fn law_each_task_makes_its_call(
    chain: XmrView,
    task: TaskView,
    reply: Result<JsonView, Seq<char>>,
    key: Seq<u8>,
)
    ensures
        chain.turn(task, reply).step matches XmrStepView::Call { task: next, call } ==> its_call(
            chain,
            next,
            call,
        ),
        chain.lock_turn().step matches XmrStepView::Call { task: next, call } ==> its_call(
            chain,
            next,
            call,
        ),
        chain.locked_turn().step matches XmrStepView::Call { task: next, call } ==> its_call(
            chain,
            next,
            call,
        ),
        chain.sweep_turn(key).step matches XmrStepView::Call { task: next, call } ==> its_call(
            chain,
            next,
            call,
        ),
{
}

/// The sweep wallet is made from the very key that the sweep was asked for. Where another wallet
/// has to be closed first, the key waits for that, and is the one that the wallet is made from
/// then.
pub proof fn law_the_sweep_wallet_has_the_key(
    chain: XmrView,
    task: TaskView,
    reply: Result<JsonView, Seq<char>>,
    key: Seq<u8>,
)
    ensures
        chain.sweep_turn(key).step matches XmrStepView::Call { task: next, call } && (
        call matches WalletCallView::OpenSweep { spend_key, .. } ==> spend_key == key) && (
        next matches TaskView::SweepClose { spend_key } ==> spend_key == key),
        chain.open is Closed && !chain.created_sweep ==> (chain.sweep_turn(
            key,
        ).step matches XmrStepView::Call { call, .. } && call is OpenSweep),
        chain.open is Closed && chain.created_sweep ==> (chain.sweep_turn(
            key,
        ).step matches XmrStepView::Call { task: next, .. } && next is SweepOpen),
        !(chain.open is Closed) ==> chain.sweep_turn(key).step == (XmrStepView::Call {
            task: TaskView::SweepClose { spend_key: key },
            call: WalletCallView::Close,
        }),
        chain.turn(task, reply).step matches XmrStepView::Call { task: next, call } ==> {
            &&& call matches WalletCallView::OpenSweep { spend_key, .. } ==> task
                == (TaskView::SweepClose { spend_key }) && reply is Ok
            &&& !(next is SweepClose)
        },
        reply is Ok && !chain.created_sweep ==> (chain.turn(
            TaskView::SweepClose { spend_key: key },
            reply,
        ).step matches XmrStepView::Call { call, .. } && (
        call matches WalletCallView::OpenSweep { spend_key, .. } && spend_key == key)),
        reply is Ok && chain.created_sweep ==> (chain.turn(
            TaskView::SweepClose { spend_key: key },
            reply,
        ).step matches XmrStepView::Call { call, .. } && call is Open),
{
}

/// The text that a reply gives under a name, empty where it gives none.
pub open spec fn text_under(body: JsonView, name: Seq<char>) -> Seq<char> {
    match body.at(name) {
        JsonView::Text(s) => s,
        _ => Seq::empty(),
    }
}

/// How a lock goes on, turn by turn. With a funder wallet it starts by opening that wallet, after
/// closing whichever is open; and each task is entered from the one before it alone, when the
/// wallet has confirmed that one. So the XMR counts as sent only once the transfer was accepted,
/// under the hash that the reply to the transfer named.
pub proof fn law_a_lock_sends_before_it_says_so(
    chain: XmrView,
    task: TaskView,
    reply: Result<JsonView, Seq<char>>,
)
    ensures
        ({
            let step = chain.turn(task, reply).step;
            &&& step matches XmrStepView::Sent(tx) ==> task == (TaskView::LockFinish { tx })
                && reply is Ok
            &&& task matches TaskView::LockFinish { tx } ==> (reply is Ok ==> step
                == XmrStepView::Sent(tx))
            &&& step matches XmrStepView::Call { task: next, .. } ==> {
                &&& next matches TaskView::LockFinish { tx } ==> task is LockSend && (
                reply matches Ok(body) && tx == text_under(body, "tx_hash"@))
                &&& next is LockSend ==> task is LockRefresh && reply is Ok
                &&& next is LockRefresh ==> task is LockOpen && reply is Ok
                &&& next is LockOpen ==> task is LockClose && reply is Ok
                &&& !(next is LockClose)
            }
            &&& task is LockSend && reply is Ok ==> (step matches XmrStepView::Call {
                task: next,
                ..
            } && next is LockFinish)
            &&& task is LockRefresh && reply is Ok ==> (step matches XmrStepView::Call {
                task: next,
                ..
            } && next is LockSend)
            &&& task is LockOpen && reply is Ok ==> (step matches XmrStepView::Call {
                task: next,
                ..
            } && next is LockRefresh)
            &&& task is LockClose && reply is Ok && chain.funder is Some ==> (
            step matches XmrStepView::Call { task: next, .. } && next is LockOpen)
        }),
        !(chain.lock_turn().step is Sent),
        chain.lock_turn().step matches XmrStepView::Call { task: next, .. } ==> next is LockOpen
            || next is LockClose,
        chain.funder is Some ==> (chain.lock_turn().step matches XmrStepView::Call {
            task: next,
            ..
        } && (next is LockOpen <==> chain.open is Closed) && (next is LockClose <==> !(
        chain.open is Closed))),
{
}

/// How scanning goes on, turn by turn. Whether the output counts as locked is the answer to one
/// question, asked of the watch wallet: does the unlocked balance in the reply cover the amount? A
/// reply without such a number counts as zero, and a refresh may fail.
pub proof fn law_seen_means_unlocked(
    chain: XmrView,
    task: TaskView,
    reply: Result<JsonView, Seq<char>>,
)
    ensures
        ({
            let step = chain.turn(task, reply).step;
            &&& step is Seen <==> task is WatchBalance && reply is Ok
            &&& step matches XmrStepView::Seen(seen) ==> (reply matches Ok(body) && (seen <==> (
            match body.at("unlocked_balance"@) {
                JsonView::Unsigned(unlocked) => unlocked >= chain.amount,
                _ => chain.amount == 0,
            })))
            &&& step matches XmrStepView::Call { task: next, .. } ==> {
                &&& next is WatchBalance <==> task is WatchRefresh
                &&& next is WatchRefresh <==> (task is WatchMake || task is WatchOpen)
                    && reply is Ok
                &&& next is WatchMake <==> task is WatchClose && reply is Ok
                    && !chain.created_watch
                &&& next is WatchOpen <==> task is WatchClose && reply is Ok && chain.created_watch
                &&& !(next is WatchClose)
            }
            &&& task is WatchRefresh || (reply is Ok && (task is WatchMake || task is WatchOpen
                || task is WatchClose)) ==> step is Call
        }),
        chain.locked_turn().step matches XmrStepView::Call { task: next, .. } && {
            &&& next is WatchRefresh <==> chain.open is Watch
            &&& next is WatchMake <==> chain.open is Closed && !chain.created_watch
            &&& next is WatchOpen <==> chain.open is Closed && chain.created_watch
            &&& next is WatchClose <==> chain.open is Funder || chain.open is Sweep
        },
{
}

/// How a sweep goes on, turn by turn. The output is looked for sixty times at most, with a pause
/// after each look at which the unlocked balance does not cover the amount. Everything is sent
/// once it does, and counts as swept only once that was accepted, under the hashes that the reply
/// named.
pub proof fn law_a_sweep_waits_and_sends_before_it_says_so(
    chain: XmrView,
    task: TaskView,
    reply: Result<JsonView, Seq<char>>,
)
    ensures
        ({
            let step = chain.turn(task, reply).step;
            let enough = reply matches Ok(body) && (match body.at("unlocked_balance"@) {
                JsonView::Unsigned(unlocked) => unlocked >= chain.amount,
                _ => chain.amount == 0,
            });
            &&& step matches XmrStepView::Swept(txs) ==> task == (TaskView::SweepFinish { txs })
                && reply is Ok
            &&& task matches TaskView::SweepFinish { txs } ==> (reply is Ok ==> step
                == XmrStepView::Swept(txs))
            &&& step matches XmrStepView::Call { task: next, .. } ==> {
                &&& next matches TaskView::SweepFinish { txs } ==> task is SweepSend && (
                reply matches Ok(body) && (match body.at("tx_hash_list"@) {
                    JsonView::List(items) => txs == text_items(items),
                    _ => txs.len() == 0,
                }))
                &&& next is SweepSend <==> task is SweepBalance && enough
                &&& next matches TaskView::SweepBalance { tries } ==> task
                    == (TaskView::SweepRefresh { tries })
                &&& next matches TaskView::SweepRefresh { tries } ==> if tries == 0 {
                    (task is SweepMake || task is SweepOpen) && reply is Ok
                } else {
                    task == (TaskView::SweepPause { tries: (tries - 1) as u32 }) && tries < 60
                }
                &&& next is SweepMake <==> task is SweepClose && reply is Ok
                    && !chain.created_sweep
                &&& next is SweepOpen <==> task is SweepClose && reply is Ok && chain.created_sweep
            }
            &&& task is SweepSend && reply is Ok ==> (step matches XmrStepView::Call {
                task: next,
                ..
            } && next is SweepFinish)
            &&& task is SweepBalance && enough ==> step is Call
            &&& task matches TaskView::SweepBalance { tries } ==> (reply is Ok && !enough ==> step
                == (XmrStepView::Pause { task: TaskView::SweepPause { tries } }))
            &&& step is Pause ==> task is SweepBalance && reply is Ok && !enough
            &&& task is SweepRefresh ==> step is Call
            &&& (task is SweepMake || task is SweepOpen || task is SweepClose) && reply is Ok
                ==> step is Call
            &&& task matches TaskView::SweepPause { tries } ==> if tries < 59 {
                step is Call
            } else {
                step is Failed
            }
        }),
{
}

/// An operation fails exactly where the wallet refuses a call other than a refresh that may fail,
/// where there is no funder to lock from, or where the output never unlocks. A refused close says
/// which wallet it leaves open; any other refusal is passed on as it is.
pub proof fn law_failures_are_passed_on(
    chain: XmrView,
    task: TaskView,
    reply: Result<JsonView, Seq<char>>,
)
    ensures
        ({
            let step = chain.turn(task, reply).step;
            let closes = task is LockClose || task is LockFinish || task is WatchClose
                || task is SweepClose || task is SweepFinish;
            let may_fail = task is WatchRefresh || task is SweepRefresh || task is SweepPause;
            &&& step is Failed <==> {
                ||| reply is Err && !may_fail
                ||| task is LockClose && chain.funder is None
                ||| (task matches TaskView::SweepPause { tries } && tries >= 59)
            }
            &&& reply matches Err(e) ==> (closes ==> step == XmrStepView::Failed(
                XmrErrorView::Transport(
                    "failed to close the "@ + (match chain.open {
                        WalletKind::Closed => "None"@,
                        WalletKind::Funder => "Funder"@,
                        WalletKind::Watch => "Watch"@,
                        WalletKind::Sweep => "Sweep"@,
                    }) + " wallet (open state now unknown): "@ + e,
                ),
            ))
            &&& reply matches Err(e) ==> (!closes && !may_fail ==> step == XmrStepView::Failed(
                XmrErrorView::Wallet(e),
            ))
            &&& task is SweepPause && step is Failed ==> step == XmrStepView::Failed(
                XmrErrorView::Transport(
                    "sweep timed out waiting for the 2-of-2 output to unlock after "@
                        + text::decimal(60) + " tries; the XMR is in wallet file '"@
                        + chain.sweep_file + "' — open it and sweep manually"@,
                ),
            )
        }),
{
}

/// The hashes of a reply are exactly its texts, in their order: a list gives what its parts give,
/// one after the other; a text gives itself, and anything else gives nothing.
pub proof fn law_hashes_are_the_texts(
    first: Seq<JsonView>,
    second: Seq<JsonView>,
    item: JsonView,
    s: Seq<char>,
)
    ensures
        text_items(first + second) == text_items(first) + text_items(second),
        text_items(seq![JsonView::Text(s)]) == seq![s],
        !(item is Text) ==> text_items(seq![item]).len() == 0,
    decreases second.len(),
{
    assert(seq![item].drop_last() =~= Seq::<JsonView>::empty());
    assert(seq![JsonView::Text(s)].drop_last() =~= Seq::<JsonView>::empty());
    assert(text_items(Seq::<JsonView>::empty()) =~= Seq::<Seq<char>>::empty());
    assert(text_items(seq![JsonView::Text(s)]) =~= seq![s]);
    if second.len() == 0 {
        assert(first + second =~= first);
        assert(text_items(first) + text_items(second) =~= text_items(first));
    } else {
        let rest = second.drop_last();
        law_hashes_are_the_texts(first, rest, item, s);
        assert((first + second).drop_last() =~= first + rest);
        assert(text_items(first + second) =~= text_items(first) + text_items(second));
    }
}

/// One exchange with the wallet: what an operation waited for, the call it had made, and the
/// reply.
pub struct Exchange {
    pub task: TaskView,
    pub call: WalletCallView,
    pub reply: Result<JsonView, Seq<char>>,
}

/// Does the exchange at `i`, and the state it found, come of the turn that the one before it led
/// to?
pub open spec fn follows(exchanges: Seq<Exchange>, states: Seq<XmrView>, i: int) -> bool {
    let turn = states[i - 1].turn(exchanges[i - 1].task, exchanges[i - 1].reply);
    turn.chain == states[i] && turn.step == (XmrStepView::Call {
        task: exchanges[i].task,
        call: exchanges[i].call,
    })
}

/// Is this a lock from its start on? Every exchange but the first comes of the one before it.
pub open spec fn is_lock(chain: XmrView, exchanges: Seq<Exchange>, states: Seq<XmrView>) -> bool {
    &&& exchanges.len() > 0
    &&& states.len() == exchanges.len()
    &&& states[0] == chain
    &&& chain.lock_turn().step == (XmrStepView::Call {
        task: exchanges[0].task,
        call: exchanges[0].call,
    })
    &&& forall|i: int| 0 < i < exchanges.len() ==> #[trigger] follows(exchanges, states, i)
}

/// A lock that ends with `Sent` did send: the last exchange but one is a transfer of the amount to
/// the shared address, which the wallet accepted, naming the hash that is answered.
pub proof fn law_sent_means_transferred(
    chain: XmrView,
    exchanges: Seq<Exchange>,
    states: Seq<XmrView>,
    tx: Seq<char>,
)
    requires
        is_lock(chain, exchanges, states),
        states.last().turn(exchanges.last().task, exchanges.last().reply).step
            == XmrStepView::Sent(tx),
    ensures
        exchanges.len() >= 4,
        ({
            let transfer = exchanges[exchanges.len() - 2];
            &&& transfer.call == (WalletCallView::Transfer {
                address: chain.lock_addr,
                amount: chain.amount,
            })
            &&& transfer.reply matches Ok(body) && text_under(body, "tx_hash"@) == tx
        }),
        ({
            let opened = exchanges[exchanges.len() - 4];
            &&& chain.funder matches Some(funder) && opened.call == (WalletCallView::Open {
                filename: funder.0,
                password: funder.1,
            })
            &&& opened.reply is Ok
        }),
{
    let n = exchanges.len() as int;
    law_a_lock_sends_before_it_says_so(
        states[n - 1],
        exchanges[n - 1].task,
        exchanges[n - 1].reply,
    );
    lemma_lock_exchange(chain, exchanges, states, n - 1);
    lemma_lock_exchange(chain, exchanges, states, n - 2);
    lemma_lock_exchange(chain, exchanges, states, n - 3);
    lemma_lock_exchange(chain, exchanges, states, n - 4);
}

/// What led to an exchange of a lock.
proof fn lemma_lock_exchange(
    chain: XmrView,
    exchanges: Seq<Exchange>,
    states: Seq<XmrView>,
    i: int,
)
    requires
        is_lock(chain, exchanges, states),
        0 <= i < states.len(),
    ensures
        its_call(chain, exchanges[i].task, exchanges[i].call),
        exchanges[i].task matches TaskView::LockFinish { tx } ==> i > 0
            && exchanges[i - 1].task is LockSend && (exchanges[i - 1].reply matches Ok(body) && tx
            == text_under(body, "tx_hash"@)),
        exchanges[i].task is LockSend ==> i > 0 && exchanges[i - 1].task is LockRefresh
            && exchanges[i - 1].reply is Ok,
        exchanges[i].task is LockRefresh ==> i > 0 && exchanges[i - 1].task is LockOpen
            && exchanges[i - 1].reply is Ok,
{
    let none = Seq::<u8>::empty();
    if i == 0 {
        law_each_task_makes_its_call(chain, exchanges[0].task, exchanges[0].reply, none);
        law_a_lock_sends_before_it_says_so(chain, exchanges[0].task, exchanges[0].reply);
    } else {
        let before = exchanges[i - 1];
        lemma_lock_keeps_the_swap(chain, exchanges, states, i - 1);
        assert(follows(exchanges, states, i));
        law_each_task_makes_its_call(states[i - 1], before.task, before.reply, none);
        law_a_lock_sends_before_it_says_so(states[i - 1], before.task, before.reply);
    }
}

proof fn lemma_lock_keeps_the_swap(
    chain: XmrView,
    exchanges: Seq<Exchange>,
    states: Seq<XmrView>,
    i: int,
)
    requires
        is_lock(chain, exchanges, states),
        0 <= i < states.len(),
    ensures
        states[i].lock_addr == chain.lock_addr,
        states[i].view_secret == chain.view_secret,
        states[i].restore_height == chain.restore_height,
        states[i].amount == chain.amount,
        states[i].payout == chain.payout,
        states[i].funder == chain.funder,
        states[i].wallet_password == chain.wallet_password,
        states[i].watch_file == chain.watch_file,
        states[i].sweep_file == chain.sweep_file,
    decreases i,
{
    if i > 0 {
        lemma_lock_keeps_the_swap(chain, exchanges, states, i - 1);
        assert(follows(exchanges, states, i));
        law_the_swap_stays_the_same(
            states[i - 1],
            exchanges[i - 1].task,
            exchanges[i - 1].reply,
            Seq::empty(),
        );
    }
}

/// A call asks the wallet for what it says: the file, the address, the keys, the height and the
/// amount that the wallet is given are those that the call carries.
pub proof fn law_calls_say_what_they_ask(call: WalletCall)
    ensures
        call is Close <==> call@ is Close,
        call is Refresh <==> call@ is Refresh,
        call is Balance <==> call@ is Balance,
        call matches WalletCall::Open { filename, password } ==> call@ == (WalletCallView::Open {
            filename: filename@,
            password: password@,
        }),
        call matches WalletCall::OpenWatch {
            filename,
            address,
            view_secret,
            restore_height,
            password,
        } ==> call@ == (WalletCallView::OpenWatch {
            filename: filename@,
            address: address@,
            view_secret: view_secret@,
            restore_height,
            password: password@,
        }),
        call matches WalletCall::OpenSweep {
            filename,
            address,
            spend_key,
            view_secret,
            restore_height,
            password,
        } ==> call@ == (WalletCallView::OpenSweep {
            filename: filename@,
            address: address@,
            spend_key: spend_key@,
            view_secret: view_secret@,
            restore_height,
            password: password@,
        }),
        call matches WalletCall::Transfer { address, amount } ==> call@ == (
        WalletCallView::Transfer { address: address@, amount }),
        call matches WalletCall::SweepAll { address } ==> call@ == (WalletCallView::SweepAll {
            address: address@,
        }),
{
}

/// A step says what it is: a hash, an answer, a list of hashes in their order, an error with its
/// text; and a call or a pause is that of its own task.
pub proof fn law_steps_say_what_they_are(step: XmrStep, i: int)
    ensures
        step matches XmrStep::Call { task, call } ==> step@ == (XmrStepView::Call {
            task: task@,
            call: call@,
        }),
        step matches XmrStep::Pause { task } ==> step@ == (XmrStepView::Pause { task: task@ }),
        step matches XmrStep::Sent(tx) ==> step@ == XmrStepView::Sent(tx@),
        step matches XmrStep::Seen(b) ==> step@ == XmrStepView::Seen(b),
        step matches XmrStep::Swept(txs) ==> step@ is Swept && step@->Swept_0.len() == txs@.len()
            && (0 <= i < txs@.len() ==> step@->Swept_0[i] == txs@[i]@),
        step matches XmrStep::Failed(XmrError::Wallet(e)) ==> step@ == XmrStepView::Failed(
            XmrErrorView::Wallet(e@),
        ),
        step matches XmrStep::Failed(XmrError::Transport(e)) ==> step@ == XmrStepView::Failed(
            XmrErrorView::Transport(e@),
        ),
{
}

/// A task is told from every other by its view, and carries the same key, hash or count.
pub proof fn law_tasks_are_told_apart(task: Task, i: int)
    ensures
        task is LockClose <==> task@ is LockClose,
        task is LockOpen <==> task@ is LockOpen,
        task is LockRefresh <==> task@ is LockRefresh,
        task is LockSend <==> task@ is LockSend,
        task is WatchClose <==> task@ is WatchClose,
        task is WatchMake <==> task@ is WatchMake,
        task is WatchOpen <==> task@ is WatchOpen,
        task is WatchRefresh <==> task@ is WatchRefresh,
        task is WatchBalance <==> task@ is WatchBalance,
        task is SweepMake <==> task@ is SweepMake,
        task is SweepOpen <==> task@ is SweepOpen,
        task is SweepSend <==> task@ is SweepSend,
        task matches Task::LockFinish { tx } ==> task@ == (TaskView::LockFinish { tx: tx@ }),
        task matches Task::SweepClose { spend_key } ==> task@ == (TaskView::SweepClose {
            spend_key: spend_key@,
        }),
        task matches Task::SweepRefresh { tries } ==> task@ == (TaskView::SweepRefresh { tries }),
        task matches Task::SweepBalance { tries } ==> task@ == (TaskView::SweepBalance { tries }),
        task matches Task::SweepPause { tries } ==> task@ == (TaskView::SweepPause { tries }),
        task matches Task::SweepFinish { txs } ==> task@ is SweepFinish && task@->txs.len()
            == txs@.len() && (0 <= i < txs@.len() ==> task@->txs[i] == txs@[i]@),
{
}

/// A sweep looks for its output sixty times, half a minute apart: half an hour in all.
pub proof fn law_a_sweep_waits_for_half_an_hour()
    ensures
        UNLOCK_POLL_SECS == 30,
        UNLOCK_TRIES * UNLOCK_POLL_SECS == 30 * 60,
{
}

/// The funder wallet is opened under the name and with the password that it was given.
pub proof fn law_the_funder_is_the_one_given(funder: Option<FunderWallet>)
    ensures
        funder is None ==> funder_view(funder) is None,
        funder matches Some(wallet) ==> funder_view(funder) == Some(
            (wallet.filename@, wallet.password@),
        ),
{
}

} // verus!
