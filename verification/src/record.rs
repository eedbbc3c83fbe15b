//! The durable event record and the raw log entry it is decoded from.
use vstd::prelude::*;

verus! {

/// Mathematical value of a [`LogEntry`]: every text field as a
/// character sequence and the timestamp as an unbounded integer.
pub ghost struct LogEntryV {
    pub chain: Seq<char>,
    pub attacker: Seq<char>,
    pub action: Seq<char>,
    pub amount: Seq<char>,
    pub timestamp: int,
    pub tx_hash: Seq<char>,
}

/// One decoded attacker-interaction event, the unit that the log
/// store persists. The `amount` is kept as the raw decimal/hex string
/// so that values wider than any native integer lose no precision.
pub struct LogEntry {
    pub chain: String,
    pub attacker: String,
    pub action: String,
    pub amount: String,
    pub timestamp: i64,
    pub tx_hash: String,
}

impl View for LogEntry {
    type V = LogEntryV;

    open spec fn view(&self) -> LogEntryV {
        LogEntryV {
            chain: self.chain@,
            attacker: self.attacker@,
            action: self.action@,
            amount: self.amount@,
            timestamp: self.timestamp as int,
            tx_hash: self.tx_hash@,
        }
    }
}

impl DeepView for LogEntry {
    type V = LogEntryV;

    open spec fn deep_view(&self) -> LogEntryV {
        self.view()
    }
}

/// Mathematical value of a [`RawLogEntry`].
pub ghost struct RawLogEntryV {
    pub tx_hash: Option<Seq<char>>,
    pub topics: Option<Seq<Option<Seq<char>>>>,
    pub data: Option<Seq<char>>,
}

/// One raw log object as returned by `eth_getLogs`, reduced to the
/// fields the decoder reads. A `None` stands for a field that was
/// absent or not of the expected JSON shape (a missing key, a
/// non-string hash, a non-array topic list).
pub struct RawLogEntry {
    pub tx_hash: Option<String>,
    pub topics: Option<Vec<Option<String>>>,
    pub data: Option<String>,
}

impl View for RawLogEntry {
    type V = RawLogEntryV;

    open spec fn view(&self) -> RawLogEntryV {
        RawLogEntryV {
            tx_hash: self.tx_hash.deep_view(),
            topics: match self.topics {
                Option::None => Option::None,
                Option::Some(ts) => Option::Some(ts.deep_view()),
            },
            data: self.data.deep_view(),
        }
    }
}

impl DeepView for RawLogEntry {
    type V = RawLogEntryV;

    open spec fn deep_view(&self) -> RawLogEntryV {
        self.view()
    }
}

} // verus!
