//! The serial tool: what the user has set and typed, and the log of what
//! went over the line.
//!
//! The tool holds no port. Where a port is needed the functions come in two
//! halves: the first says what is to be opened or written, the second takes
//! what came of it.

use vstd::prelude::*;
use vstd::string::{StrSliceExecFns, StringExecFns};
use vstd::utf8::encode_utf8;
use crate::framing::Frame;
use crate::hex::{bytes_to_hex_string, hex_bytes, hex_string, hex_to_bytes, is_hex_text};
use crate::settings::{
    text_of, texts, DataBits, Parity, SerialSettings, SettingsView, StopBits, READ_TIMEOUT_MS,
};

verus! {

/// How the text to send is read.
#[derive(PartialEq, Eq, Structural, Clone, Copy, Debug)]
pub enum SendFormat {
    /// The text goes out as it is, in UTF-8.
    ASCII,
    /// The text is hexadecimal and stands for the bytes that go out.
    Hex,
}

/// Whether `text` can be sent under `format`: under `Hex` it must stand for
/// bytes.
pub open spec fn sendable(format: SendFormat, text: Seq<char>) -> bool {
    format == SendFormat::Hex ==> is_hex_text(text)
}

/// The bytes that go out for `text` under `format`.
pub open spec fn payload(format: SendFormat, text: Seq<char>) -> Seq<u8> {
    match format {
        SendFormat::ASCII => encode_utf8(text),
        SendFormat::Hex => hex_bytes(text),
    }
}

/// The log line for received bytes.
pub open spec fn rx_line(bytes: Seq<u8>) -> Seq<char> {
    "RX: "@ + hex_string(bytes)
}

/// The log after bytes were received: one more line, unless there were no
/// bytes.
pub open spec fn logged_rx(logs: Seq<Seq<char>>, bytes: Seq<u8>) -> Seq<Seq<char>> {
    if bytes.len() > 0 {
        logs.push(rx_line(bytes))
    } else {
        logs
    }
}

/// The log after frames were received, in their order.
pub open spec fn logged_frames(logs: Seq<Seq<char>>, frames: Seq<Frame>) -> Seq<Seq<char>>
    decreases frames.len(),
{
    if frames.len() == 0 {
        logs
    } else {
        logged_rx(logged_frames(logs, frames.drop_last()), frames.last()@)
    }
}

/// The state of the serial tool.
pub struct SerialTool {
    pub available_ports: Vec<String>,
    pub selected_port: Option<String>,
    pub baud_rate: u32,
    pub data_bits: DataBits,
    pub parity: Parity,
    pub stop_bits: StopBits,
    pub logs: Vec<String>,
    pub input_text: String,
    pub status: String,
    /// Whether a port is open.
    pub connected: bool,
    pub send_format: SendFormat,
}

/// The model of a [`SerialTool`].
pub struct SerialView {
    pub available_ports: Seq<Seq<char>>,
    pub selected_port: Option<Seq<char>>,
    pub baud_rate: u32,
    pub data_bits: DataBits,
    pub parity: Parity,
    pub stop_bits: StopBits,
    pub logs: Seq<Seq<char>>,
    pub input_text: Seq<char>,
    pub status: Seq<char>,
    pub connected: bool,
    pub send_format: SendFormat,
}

impl View for SerialTool {
    type V = SerialView;

    open spec fn view(&self) -> SerialView {
        SerialView {
            available_ports: texts(self.available_ports@),
            selected_port: text_of(self.selected_port),
            baud_rate: self.baud_rate,
            data_bits: self.data_bits,
            parity: self.parity,
            stop_bits: self.stop_bits,
            logs: texts(self.logs@),
            input_text: self.input_text@,
            status: self.status@,
            connected: self.connected,
            send_format: self.send_format,
        }
    }
}

impl SerialView {
    /// What opening the selected port takes; `None` if no port is selected.
    pub open spec fn settings(self) -> Option<SettingsView> {
        match self.selected_port {
            Some(name) => Some(
                SettingsView {
                    port_name: name,
                    baud_rate: self.baud_rate,
                    data_bits: self.data_bits,
                    parity: self.parity,
                    stop_bits: self.stop_bits,
                    timeout_ms: READ_TIMEOUT_MS,
                },
            ),
            None => None,
        }
    }
}

/// The bytes that go out for `text` under `format`.
pub fn encode_payload(format: SendFormat, text: &str) -> (bytes: Vec<u8>)
    requires
        sendable(format, text@),
    ensures
        bytes@ == payload(format, text@),
{
    match format {
        SendFormat::ASCII => text.as_bytes_vec(),
        SendFormat::Hex => hex_to_bytes(text),
    }
}

impl SerialTool {
    /// A tool that is not connected: 9600 baud, eight data bits, no parity,
    /// one stop bit, text sent as it is.
    pub fn new(available_ports: Vec<String>) -> (tool: SerialTool)
        ensures
            tool@ == (SerialView {
                available_ports: texts(available_ports@),
                selected_port: None,
                baud_rate: 9600,
                data_bits: DataBits::Eight,
                parity: Parity::NoParity,
                stop_bits: StopBits::One,
                logs: Seq::empty(),
                input_text: Seq::empty(),
                status: "Disconnected"@,
                connected: false,
                send_format: SendFormat::ASCII,
            }),
    {
        let tool = SerialTool {
            available_ports,
            selected_port: None,
            baud_rate: 9600,
            data_bits: DataBits::Eight,
            parity: Parity::NoParity,
            stop_bits: StopBits::One,
            logs: Vec::new(),
            input_text: String::new(),
            status: String::from_str("Disconnected"),
            connected: false,
            send_format: SendFormat::ASCII,
        };
        assert(tool@.logs =~= Seq::empty());
        tool
    }

    /// Takes a new list of the ports that there are.
    pub fn refresh_ports(&mut self, available_ports: Vec<String>)
        ensures
            final(self)@ == (SerialView {
                available_ports: texts(available_ports@),
                ..old(self)@
            }),
    {
        self.available_ports = available_ports;
    }

    /// The first half of connecting: gives the settings with which the
    /// selected port is to be opened. With no port selected it gives `None`
    /// and says so in the status.
    pub fn connect(&mut self) -> (settings: Option<SerialSettings>)
        ensures
            match settings {
                Some(s) => Some(s@) == old(self)@.settings() && final(self)@ == old(self)@,
                None => old(self)@.settings() is None && final(self)@ == (SerialView {
                    status: "Please select a serial port"@,
                    ..old(self)@
                }),
            },
    {
        let settings: Option<SerialSettings> = match &self.selected_port {
            Some(name) => Some(
                SerialSettings {
                    port_name: name.clone(),
                    baud_rate: self.baud_rate,
                    data_bits: self.data_bits,
                    parity: self.parity,
                    stop_bits: self.stop_bits,
                    timeout_ms: READ_TIMEOUT_MS,
                },
            ),
            None => None,
        };
        if settings.is_none() {
            self.status = String::from_str("Please select a serial port");
        }
        settings
    }

    /// The second half of connecting: takes what came of opening the port
    /// with `settings`. The status names the port, or the reason of the
    /// failure.
    pub fn finish_connect(&mut self, settings: &SerialSettings, outcome: Result<(), String>)
        ensures
            final(self)@ == (match outcome {
                Ok(_) => SerialView {
                    status: "Connected to "@ + settings@.port_name,
                    connected: true,
                    ..old(self)@
                },
                Err(reason) => SerialView {
                    status: "Connection failed: "@ + reason@,
                    ..old(self)@
                },
            }),
    {
        match outcome {
            Ok(_) => {
                let mut status: String = String::from_str("Connected to ");
                status.append(settings.port_name.as_str());
                self.status = status;
                self.connected = true;
            },
            Err(reason) => {
                let mut status: String = String::from_str("Connection failed: ");
                status.append(reason.as_str());
                self.status = status;
            },
        }
    }

    /// Notes that the port is closed.
    pub fn disconnect(&mut self)
        ensures
            final(self)@ == (SerialView {
                status: "Disconnected"@,
                connected: false,
                ..old(self)@
            }),
    {
        self.connected = false;
        self.status = String::from_str("Disconnected");
    }

    /// The first half of sending: gives the bytes to write for the text that
    /// was typed. Without a port it gives `None` and says so in the log.
    pub fn send_data(&mut self) -> (bytes: Option<Vec<u8>>)
        requires
            sendable(old(self)@.send_format, old(self)@.input_text),
        ensures
            match bytes {
                Some(b) => old(self)@.connected && b@ == payload(
                    old(self)@.send_format,
                    old(self)@.input_text,
                ) && final(self)@ == old(self)@,
                None => !old(self)@.connected && final(self)@ == (SerialView {
                    logs: old(self)@.logs.push("Not connected to serial port"@),
                    ..old(self)@
                }),
            },
    {
        if self.connected {
            Some(encode_payload(self.send_format, self.input_text.as_str()))
        } else {
            let ghost before = self.logs@;
            self.logs.push(String::from_str("Not connected to serial port"));
            assert(texts(self.logs@) =~= texts(before).push("Not connected to serial port"@));
            None
        }
    }

    /// The second half of sending: takes what came of the write, logs it,
    /// and empties the input.
    pub fn finish_send(&mut self, outcome: Result<(), String>)
        ensures
            final(self)@ == (SerialView {
                logs: old(self)@.logs.push(
                    match outcome {
                        Ok(_) => "TX: "@ + old(self)@.input_text,
                        Err(reason) => "Send failed: "@ + reason@,
                    },
                ),
                input_text: Seq::empty(),
                ..old(self)@
            }),
    {
        let ghost before = self.logs@;
        let line: String = match outcome {
            Ok(_) => {
                let mut line: String = String::from_str("TX: ");
                line.append(self.input_text.as_str());
                line
            },
            Err(reason) => {
                let mut line: String = String::from_str("Send failed: ");
                line.append(reason.as_str());
                line
            },
        };
        self.logs.push(line);
        self.input_text = String::new();
        assert(texts(self.logs@) =~= texts(before).push(line@));
    }

    /// Logs bytes that came in, in hexadecimal. No bytes, no line.
    pub fn receive_data(&mut self, bytes: &[u8])
        ensures
            final(self)@ == (SerialView {
                logs: logged_rx(old(self)@.logs, bytes@),
                ..old(self)@
            }),
    {
        if bytes.len() > 0 {
            let ghost before = self.logs@;
            let mut line: String = String::from_str("RX: ");
            let hex: String = bytes_to_hex_string(bytes);
            line.append(hex.as_str());
            self.logs.push(line);
            assert(texts(self.logs@) =~= texts(before).push(rx_line(bytes@)));
        } else {
            assert(texts(self.logs@) =~= old(self)@.logs);
        }
    }

    /// Logs the frames that have come in since the last call, in the order
    /// in which they came. Frames only add to the log.
    pub fn receive_frames(&mut self, frames: &Vec<Frame>)
        ensures
            final(self)@ == (SerialView {
                logs: logged_frames(old(self)@.logs, frames@),
                ..old(self)@
            }),
    {
        let mut i: usize = 0;
        while i < frames.len()
            invariant
                i <= frames.len(),
                self@ == (SerialView {
                    logs: logged_frames(old(self)@.logs, frames@.take(i as int)),
                    ..old(self)@
                }),
            decreases frames.len() - i,
        {
            assert(frames@.take(i + 1).drop_last() =~= frames@.take(i as int));
            self.receive_data(frames[i].bytes.as_slice());
            i = i + 1;
        }
        assert(frames@.take(frames.len() as int) =~= frames@);
    }
}

} // verus!
