//! The Modbus tool: what the user has set, the block that is shown, and the
//! poll that keeps it fresh.
//!
//! The tool sends nothing itself. It says which request is to go out and
//! whether a poll loop is to be spawned or stopped, and takes the blocks that
//! come back.

use vstd::prelude::*;
use vstd::string::StringExecFns;
use crate::codec::{decode, Decoded, DisplayFormat};
use crate::poll::{Delivery, Launch, Origin, PollSession, SessionState, SessionView};
use crate::rows::{build_rows, row_views, rows_of, ModbusRow};
use crate::settings::{text_of, texts, DataBits, Parity, StopBits};
use crate::text::{decimal, natural_text};
use crate::transport::{ModbusFunction, ModbusMode, PollRequest, RequestView};

verus! {

/// The state of the Modbus tool.
pub struct ModbusTool {
    pub mode: ModbusMode,
    pub connected: bool,
    pub tcp_ip: String,
    pub tcp_port: u16,
    pub available_ports: Vec<String>,
    pub selected_port: Option<String>,
    pub baud_rate: u32,
    pub data_bits: DataBits,
    pub parity: Parity,
    pub stop_bits: StopBits,
    pub slave_id: u8,
    pub function: ModbusFunction,
    pub address: u16,
    pub quantity: u16,
    pub view_rows: usize,
    pub display_format: DisplayFormat,
    /// The block that is shown: the last one that was taken.
    pub data: Vec<u16>,
    pub logs: Vec<String>,
    pub scroll_to_bottom: bool,
    /// Whether the user wants the device polled.
    pub auto_poll: bool,
    pub session: PollSession,
}

/// The model of a [`ModbusTool`].
pub struct ModbusView {
    pub mode: ModbusMode,
    pub connected: bool,
    pub tcp_ip: Seq<char>,
    pub tcp_port: u16,
    pub available_ports: Seq<Seq<char>>,
    pub selected_port: Option<Seq<char>>,
    pub baud_rate: u32,
    pub data_bits: DataBits,
    pub parity: Parity,
    pub stop_bits: StopBits,
    pub slave_id: u8,
    pub function: ModbusFunction,
    pub address: u16,
    pub quantity: u16,
    pub view_rows: usize,
    pub display_format: DisplayFormat,
    pub data: Seq<u16>,
    pub logs: Seq<Seq<char>>,
    pub scroll_to_bottom: bool,
    pub auto_poll: bool,
    pub session: SessionView,
}

impl View for ModbusTool {
    type V = ModbusView;

    open spec fn view(&self) -> ModbusView {
        ModbusView {
            mode: self.mode,
            connected: self.connected,
            tcp_ip: self.tcp_ip@,
            tcp_port: self.tcp_port,
            available_ports: texts(self.available_ports@),
            selected_port: text_of(self.selected_port),
            baud_rate: self.baud_rate,
            data_bits: self.data_bits,
            parity: self.parity,
            stop_bits: self.stop_bits,
            slave_id: self.slave_id,
            function: self.function,
            address: self.address,
            quantity: self.quantity,
            view_rows: self.view_rows,
            display_format: self.display_format,
            data: self.data@,
            logs: texts(self.logs@),
            scroll_to_bottom: self.scroll_to_bottom,
            auto_poll: self.auto_poll,
            session: self.session@,
        }
    }
}

/// What the tool asks of whoever runs the poll loops.
#[derive(Debug)]
pub enum PollCommand {
    /// Nothing is to be done.
    Nothing,
    /// Spawn a loop that polls with `request` for the session numbered
    /// `epoch`.
    Start { request: PollRequest, epoch: u64 },
    /// Raise the stop signal of the running loop.
    Stop,
}

/// The model of a [`PollCommand`].
pub enum CommandView {
    Nothing,
    Start { request: RequestView, epoch: u64 },
    Stop,
}

impl View for PollCommand {
    type V = CommandView;

    open spec fn view(&self) -> CommandView {
        match self {
            PollCommand::Nothing => CommandView::Nothing,
            PollCommand::Start { request, epoch } => CommandView::Start {
                request: request@,
                epoch: *epoch,
            },
            PollCommand::Stop => CommandView::Stop,
        }
    }
}

/// The log line for a block of `count` registers.
pub open spec fn rx_line(count: nat) -> Seq<char> {
    "RX "@ + decimal(count as int) + " registers"@
}

impl ModbusView {
    /// The request that the settings describe.
    pub open spec fn request(self) -> RequestView {
        RequestView {
            host: self.tcp_ip,
            port: self.tcp_port,
            unit_id: self.slave_id,
            function: self.function,
            address: self.address,
            quantity: self.quantity,
        }
    }

    /// The tool with one more line in its log, the view set to follow it.
    pub open spec fn logged(self, line: Seq<char>) -> ModbusView {
        ModbusView { logs: self.logs.push(line), scroll_to_bottom: true, ..self }
    }

    /// The tool after a block came in. A block that the session takes
    /// replaces the block shown and is logged; a stale one changes nothing.
    pub open spec fn received(self, origin: Origin, words: Seq<u16>) -> ModbusView {
        if self.session.accepts(origin) {
            ModbusView { data: words, ..self }.logged(rx_line(words.len()))
        } else {
            self
        }
    }

    /// The tool after a batch of blocks came in, in their order.
    pub open spec fn received_all(self, batch: Seq<Delivery>) -> ModbusView
        decreases batch.len(),
    {
        if batch.len() == 0 {
            self
        } else {
            self.received_all(batch.drop_last()).received(
                batch.last().origin,
                batch.last().block@,
            )
        }
    }
}

impl ModbusTool {
    /// A tool with the settings that it starts with: TCP to 127.0.0.1:502,
    /// unit 1, ten holding registers from address 0, shown as signed numbers.
    pub fn new(available_ports: Vec<String>) -> (tool: ModbusTool)
        ensures
            tool@ == (ModbusView {
                mode: ModbusMode::Tcp,
                connected: false,
                tcp_ip: "127.0.0.1"@,
                tcp_port: 502,
                available_ports: texts(available_ports@),
                selected_port: None,
                baud_rate: 9600,
                data_bits: DataBits::Eight,
                parity: Parity::NoParity,
                stop_bits: StopBits::One,
                slave_id: 1,
                function: ModbusFunction::ReadHolding,
                address: 0,
                quantity: 10,
                view_rows: 10,
                display_format: DisplayFormat::Signed,
                data: Seq::empty(),
                logs: Seq::empty(),
                scroll_to_bottom: false,
                auto_poll: false,
                session: SessionView::fresh(),
            }),
    {
        let tool = ModbusTool {
            mode: ModbusMode::Tcp,
            connected: false,
            tcp_ip: String::from_str("127.0.0.1"),
            tcp_port: 502,
            available_ports,
            selected_port: None,
            baud_rate: 9600,
            data_bits: DataBits::Eight,
            parity: Parity::NoParity,
            stop_bits: StopBits::One,
            slave_id: 1,
            function: ModbusFunction::ReadHolding,
            address: 0,
            quantity: 10,
            view_rows: 10,
            display_format: DisplayFormat::Signed,
            data: Vec::new(),
            logs: Vec::new(),
            scroll_to_bottom: false,
            auto_poll: false,
            session: PollSession::new(),
        };
        assert(tool@.logs =~= Seq::empty());
        tool
    }

    /// The request that the settings describe.
    pub fn request(&self) -> (request: PollRequest)
        ensures
            request@ == self@.request(),
    {
        PollRequest {
            host: self.tcp_ip.clone(),
            port: self.tcp_port,
            unit_id: self.slave_id,
            function: self.function,
            address: self.address,
            quantity: self.quantity,
        }
    }

    /// Adds a line to the log and sets the view to follow it.
    fn log(&mut self, line: String)
        ensures
            final(self)@ == old(self)@.logged(line@),
    {
        let ghost before = self.logs@;
        self.logs.push(line);
        self.scroll_to_bottom = true;
        assert(texts(self.logs@) =~= texts(before).push(line@));
    }

    /// Begins a single read: logs it and gives the request to send. The read
    /// runs beside a poll, if there is one, and does not touch it.
    pub fn start_read_once(&mut self) -> (request: PollRequest)
        ensures
            request@ == old(self)@.request(),
            final(self)@ == old(self)@.logged("TX Read Holding Registers"@),
    {
        let request: PollRequest = self.request();
        self.log(String::from_str("TX Read Holding Registers"));
        request
    }

    /// Brings the poll in line with what the user wants. Where a poll is
    /// wanted and none runs, one is started; where none is wanted and one
    /// runs, it is stopped; else nothing happens.
    pub fn handle_auto_poll(&mut self) -> (command: PollCommand)
        requires
            old(self)@.session.epoch < u64::MAX,
        ensures
            old(self)@.auto_poll && old(self)@.session.state == SessionState::Idle ==> command@
                == (CommandView::Start {
                request: old(self)@.request(),
                epoch: (old(self)@.session.epoch + 1) as u64,
            }) && final(self)@ == (ModbusView {
                session: old(self)@.session.started(),
                ..old(self)@
            }).logged("Auto Poll started (1s)"@),
            !old(self)@.auto_poll && old(self)@.session.state == SessionState::Running ==> command@
                == CommandView::Stop && final(self)@ == (ModbusView {
                logs: old(self)@.logs.push("Auto Poll stopped"@),
                session: old(self)@.session.stopped(),
                ..old(self)@
            }),
            old(self)@.auto_poll == (old(self)@.session.state == SessionState::Running)
                ==> command@ == CommandView::Nothing && final(self)@ == old(self)@,
    {
        let running: bool = match self.session.state() {
            SessionState::Running => true,
            SessionState::Idle => false,
        };
        if self.auto_poll && !running {
            let request: PollRequest = self.request();
            let launch: Launch = self.session.start();
            self.log(String::from_str("Auto Poll started (1s)"));
            match launch {
                Launch::Spawn { epoch } => PollCommand::Start { request, epoch },
                Launch::AlreadyRunning { epoch } => PollCommand::Nothing,
            }
        } else if !self.auto_poll && running {
            let ghost before = self.logs@;
            self.session.stop();
            self.logs.push(String::from_str("Auto Poll stopped"));
            assert(texts(self.logs@) =~= texts(before).push("Auto Poll stopped"@));
            PollCommand::Stop
        } else {
            PollCommand::Nothing
        }
    }

    /// Takes a block that came in. A block that the session takes replaces
    /// the block shown; a stale one is dropped.
    pub fn receive(&mut self, delivery: Delivery)
        ensures
            final(self)@ == old(self)@.received(delivery.origin, delivery.block@),
    {
        if self.session.accepts(delivery.origin) {
            self.data = delivery.block.words;
            let mut line: String = String::from_str("RX ");
            let count: String = natural_text(self.data.len() as u64);
            line.append(count.as_str());
            line.append(" registers");
            self.log(line);
        }
    }

    /// Takes the blocks that have come in since the last call, in the order
    /// in which they came. Each block replaces the one before it.
    pub fn receive_all(&mut self, batch: Vec<Delivery>)
        ensures
            final(self)@ == old(self)@.received_all(batch@),
    {
        let ghost start = self@;
        for delivery in it: batch
            invariant
                it.seq() == batch@,
                self@ == start.received_all(batch@.take(it.index() as int)),
        {
            assert(batch@.take(it.index() + 1).drop_last() =~= batch@.take(it.index() as int));
            self.receive(delivery);
        }
        assert(batch@.take(batch@.len() as int) =~= batch@);
    }

    /// Decodes the first words of `raw` under `fmt`.
    pub fn format_value(raw: &[u16], fmt: DisplayFormat) -> (out: Decoded)
        ensures
            out@ == decode(fmt, raw@),
    {
        fmt.format(raw)
    }

    /// The block that is shown, laid out in rows under the format that is
    /// set, from the address that is set.
    pub fn rows(&self) -> (rows: Vec<ModbusRow>)
        requires
            self@.address + self@.data.len() <= 0x1_0000,
        ensures
            row_views(rows@) == rows_of(self@.data, self@.address, self@.display_format),
    {
        build_rows(self.data.as_slice(), self.address, self.display_format)
    }
}

/// The last block wins: after a batch whose last block is taken, that block
/// is the one shown, whatever came before it.
pub proof fn lemma_last_block_wins(tool: ModbusView, batch: Seq<Delivery>)
    requires
        batch.len() > 0,
        tool.session.accepts(batch.last().origin),
    ensures
        tool.received_all(batch).data == batch.last().block@,
{
    lemma_receiving_keeps_session(tool, batch.drop_last());
}

/// Blocks that come in leave the session and the settings as they are.
pub proof fn lemma_receiving_keeps_session(tool: ModbusView, batch: Seq<Delivery>)
    ensures
        tool.received_all(batch).session == tool.session,
        tool.received_all(batch).request() == tool.request(),
        tool.received_all(batch).display_format == tool.display_format,
    decreases batch.len(),
{
    if batch.len() > 0 {
        lemma_receiving_keeps_session(tool, batch.drop_last());
    }
}

/// A batch of stale blocks changes nothing.
pub proof fn lemma_stale_blocks_are_dropped(tool: ModbusView, batch: Seq<Delivery>)
    requires
        forall|i: int| 0 <= i < batch.len() ==> !tool.session.accepts((#[trigger] batch[i]).origin),
    ensures
        tool.received_all(batch) == tool,
    decreases batch.len(),
{
    if batch.len() > 0 {
        lemma_stale_blocks_are_dropped(tool, batch.drop_last());
    }
}

} // verus!
