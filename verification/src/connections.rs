pub mod channels_node_info;
pub mod configs;
pub mod connect;
pub mod nodes_info;
