//! Cops for general Ruby style.
pub mod access_modifier_declarations;
pub mod accessor_grouping;
pub mod alias;
pub mod ambiguous_endless_method_definition;
pub mod bisected_attr_accessor;
pub mod class_equality_comparison;
pub mod class_methods;
pub mod class_methods_definitions;
pub mod class_vars;
pub mod combinable_loops;
pub mod command_literal;
pub mod comparable_clamp;
pub mod conditional_assignment;
pub mod copyright;
pub mod data_inheritance;
pub mod date_time;
pub mod double_negation;
pub mod each_for_simple_loop;
pub mod empty_block_parameter;
pub mod empty_case_condition;
pub mod empty_else;
pub mod empty_literal;
pub mod empty_string_inside_interpolation;
pub mod end_block;
pub mod eval_with_location;
pub mod guard_clause;
pub mod hash_conversion;
pub mod hash_like_case;
pub mod file_empty;
pub mod file_null;
pub mod file_write;
pub mod float_division;
pub mod for_cop;
pub mod format_string;
pub mod hash_syntax;
pub mod hash_transform_values;
pub mod if_unless_modifier_of_if_unless;
pub mod if_with_semicolon;
pub mod inverse_methods;
pub mod it_assignment;
pub mod exponential_notation;
