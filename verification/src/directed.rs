pub mod quantized_astar;
