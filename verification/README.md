# shorelark

Birds that learn to find food: each bird is steered by a small feed-forward
neural network, and after every generation a genetic algorithm breeds the
next flock from the brains (as chromosomes) of the fitter birds.

`src/` is the verified library, generic over the scalar type of genes and
network parameters:

- `genetic_algorithm` — chromosomes, the individual / selection / crossover /
  mutation traits, and `GeneticAlgorithm::evolve`.
- `neural_network` — layers and neurons, reading a network out of a flat list
  of parameters (`from_weights`) and listing them back (`weights`), with the
  round-trip and parameter-count laws.
- `brain`, `animal`, `food`, `world`, `simulation` — a bird's brain and its
  chromosome, the birds and foods of the world, and the generation clock.
- `geometry` — the glam types that positions and headings are kept in.

`app/` is the Bevy program around it: the window, the rendering systems, the
random draws, and all floating-point arithmetic (steering, the network's
forward pass, wrapping positions around the world's edges).
