//! The result sink: the accumulated per-backend records, and the plain
//! result document assembled from them once at the end of a run.

use vstd::prelude::*;
use vstd::string::*;
use crate::format::{format_size_label, spec_size_label};

verus! {

/// One record of a result document: a test row of one backend, with one
/// formatted throughput string per ladder size.
pub struct JsonRecord {
    pub test_name: String,
    pub comp_op: String,
    pub style: String,
    pub rcpms: Vec<String>,
}

/// One backend run of a result document.
pub struct JsonRun {
    pub name: String,
    pub version: Option<String>,
    pub records: Vec<JsonRecord>,
}

/// The environment block of a result document.
pub struct JsonEnvironment {
    pub os: String,
}

/// The processor block of a result document.
pub struct JsonCpu {
    pub arch: String,
    pub vendor: String,
    pub brand: String,
}

/// The screen block of a result document.
pub struct JsonScreen {
    pub width: u32,
    pub height: u32,
    pub format: String,
}

/// The options block of a result document.
pub struct JsonOptions {
    pub quantity: u32,
    pub sizes: Vec<String>,
    pub repeat: u32,
}

/// A whole result document, made of plain values only.
pub struct JsonDocument {
    pub environment: JsonEnvironment,
    pub cpu: JsonCpu,
    pub screen: JsonScreen,
    pub options: JsonOptions,
    pub runs: Vec<JsonRun>,
}

/// Accumulates the runs of one benchmark pass and assembles the result
/// document.
pub struct JsonWriter {
    pub runs: Vec<JsonRun>,
    pub screen_w: u32,
    pub screen_h: u32,
    pub quantity: u32,
    pub repeat: u32,
    pub sizes: Vec<u32>,
}

impl JsonWriter {
    /// An empty sink for a run with the given screen, quantity, repeat
    /// count and size ladder.
    pub fn new(screen_w: u32, screen_h: u32, quantity: u32, repeat: u32, sizes: Vec<u32>) -> (r:
        JsonWriter)
        ensures
            r.runs@.len() == 0,
            r.screen_w == screen_w,
            r.screen_h == screen_h,
            r.quantity == quantity,
            r.repeat == repeat,
            r.sizes@ == sizes@,
    {
        JsonWriter { runs: Vec::new(), screen_w, screen_h, quantity, repeat, sizes }
    }

    /// Appends one backend's accumulated records.
    pub fn push_run(&mut self, name: String, version: Option<String>, records: Vec<JsonRecord>)
        ensures
            final(self).runs@ == old(self).runs@.push(JsonRun { name, version, records }),
            final(self).screen_w == old(self).screen_w,
            final(self).screen_h == old(self).screen_h,
            final(self).quantity == old(self).quantity,
            final(self).repeat == old(self).repeat,
            final(self).sizes@ == old(self).sizes@,
    {
        self.runs.push(JsonRun { name, version, records });
    }

    /// Assembles the result document: the given environment and processor
    /// identifiers, the screen in the fixed pixel format, the options used
    /// (with each ladder size as a square label), and every accumulated
    /// run, in order.
    pub fn document(self, os: String, arch: String) -> (r: JsonDocument)
        ensures
            r.environment.os@ == os@,
            r.cpu.arch@ == arch@,
            r.cpu.vendor@ == "unknown"@,
            r.cpu.brand@ == "unknown"@,
            r.screen.width == self.screen_w,
            r.screen.height == self.screen_h,
            r.screen.format@ == "prgb32"@,
            r.options.quantity == self.quantity,
            r.options.repeat == self.repeat,
            r.options.sizes@.len() == self.sizes@.len(),
            forall|i: int|
                0 <= i < self.sizes@.len() ==> (#[trigger] r.options.sizes@[i])@
                    == spec_size_label(self.sizes@[i] as int),
            r.runs == self.runs,
    {
        let mut labels: Vec<String> = Vec::new();
        let mut i: usize = 0;
        while i < self.sizes.len()
            invariant
                i <= self.sizes@.len(),
                labels@.len() == i,
                forall|j: int|
                    0 <= j < i ==> (#[trigger] labels@[j])@ == spec_size_label(
                        self.sizes@[j] as int,
                    ),
            decreases self.sizes@.len() - i,
        {
            labels.push(format_size_label(self.sizes[i]));
            i = i + 1;
        }
        JsonDocument {
            environment: JsonEnvironment { os },
            cpu: JsonCpu {
                arch,
                vendor: String::from_str("unknown"),
                brand: String::from_str("unknown"),
            },
            screen: JsonScreen {
                width: self.screen_w,
                height: self.screen_h,
                format: String::from_str("prgb32"),
            },
            options: JsonOptions { quantity: self.quantity, sizes: labels, repeat: self.repeat },
            runs: self.runs,
        }
    }
}

} // verus!
