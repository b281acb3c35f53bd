//! Cops for RSpec test files.
pub mod around_block;
pub mod context_wording;
pub mod describe_method;
pub mod empty_line_after_example;
pub mod empty_line_after_final_let;
pub mod example_length;
pub mod implicit_subject;
pub mod repeated_example;
pub mod repeated_example_group_body;
pub mod leading_subject;
pub mod message_expectation;
pub mod not_to_not;
pub mod receive_messages;
pub mod single_argument_message_chain;
pub mod sort_metadata;
