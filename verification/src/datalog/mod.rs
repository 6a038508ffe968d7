pub mod datalog_analyser;
