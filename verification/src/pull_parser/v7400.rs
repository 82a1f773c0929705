//! Parser-related stuff for FBX 7.4 or later.

pub use self::parser::{fails_at, spec_footer_warnings, spec_reads_footer};
pub use self::parser::{from_reader, from_seekable_reader, spec_headroom, spec_path_of, OpenNode, Parser};
pub use self::parser::{
    is_end_position, is_node_position, law_next_event_ignores_skipping, spec_end_result,
    spec_end_warnings, spec_marker_required, law_next_event_keeps_warnings,
    law_stopped_parser_reads_no_event, same_open_nodes, spec_count_up, spec_ends_document, spec_is_end_marker, spec_large_header, spec_name_warnings,
    spec_next_event, spec_next_raw, spec_node_header, spec_node_header_len, spec_popped,
    spec_pushed, spec_saturating_add, spec_skip_len, EventKind,
};

pub use self::attribute::Attributes;
pub use self::event::{Event, StartNode};
pub use self::read::{spec_array_header_fields, spec_read_step};

pub mod attribute;
mod event;
mod parser;
mod read;
